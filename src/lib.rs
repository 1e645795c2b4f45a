//! Conversion of columnar query-result batches into a row-oriented value model,
//! and a text grid renderer over that model.
pub mod text;
pub mod columnar;
pub mod dataframe;
pub mod convert;
