pub mod read_sources_from_dir;
