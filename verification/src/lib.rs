//! Randomized arithmetic worksheets: the problem model, the generator that
//! fills a worksheet under validity and diversity rules, and the rendering of
//! the student and instructor sheets.

pub mod export;
pub mod generate;
pub mod input;
pub mod operation;
pub mod options;
pub mod problem;
pub mod reading;
pub mod text;

pub use export::{sa_export, sa_export_tag, sa_export_with, SADate, SAExport, SA_KEY_LENGTH};
pub use generate::{sa_generate, SAGenerationError, SAGeneratorState, SA_MAX_REJECTIONS};
pub use input::{check_input_num, SAField, SAProblemInputBuffer, SAValidity};
pub use operation::SAOperation;
pub use options::SAGeneratorOptions;
pub use problem::SAProblem;
