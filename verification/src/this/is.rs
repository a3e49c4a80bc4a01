pub mod long;
