pub mod codes;
