pub mod get_ubiquitous;
