pub mod common_response_logic;
