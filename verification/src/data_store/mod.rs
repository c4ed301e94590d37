pub mod db_models;
