pub mod collect_class_docs;
pub mod get_ubiquitous;
