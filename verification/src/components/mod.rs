pub mod app;
pub mod browse;
pub mod component;
pub mod contact_list;
pub mod delete_confirmation;
pub mod error_dialog;
pub mod form;
pub mod input;
pub mod status_bar;
pub mod text_field;
