pub mod collect_class_docs;
pub mod extract_ubiquitous;
pub mod get_ubiquitous;
