pub mod generate_html;
pub mod ubiquitous_row;
pub mod ubiquitous_rows;
