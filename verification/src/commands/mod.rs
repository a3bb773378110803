pub mod modules;
