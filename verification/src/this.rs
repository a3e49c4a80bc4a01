pub mod is;
