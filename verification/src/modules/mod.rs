pub mod db_init;
pub mod test_data;
