pub mod name_map;
pub mod text;
pub mod test_utils;
