pub mod extract_comment;
