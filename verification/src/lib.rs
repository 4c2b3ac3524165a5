//! Screen logic of the sid developer cockpit: the decisions its tabs, forms and
//! modals make, separated from drawing and from the operating system.

pub mod text;
pub mod order;
pub mod numeral;
pub mod command_palette;
pub mod model;
pub mod secrets;
pub mod host_form;
pub mod db_conn_form;
pub mod password_prompt;
pub mod secret_unlock;
pub mod config_editor;
pub mod db_results;
pub mod db_tab;
pub mod db_state;
pub mod network_tab;
pub mod db_diagram;
pub mod keys;
