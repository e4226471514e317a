pub mod puzzle;
