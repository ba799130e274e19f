pub mod text;
pub mod edit_history;
pub mod text_model;
pub mod text_box;
pub mod editable;
pub mod strings;
pub mod laws;
pub mod event;
pub mod computed;
pub mod base;
pub mod app;
pub mod scroll;
pub mod label;
pub mod error;
pub mod paragraph;
pub mod richtext;
pub mod radio;
pub mod select;
pub mod image_object;
pub mod animation;
pub mod checkbox;
pub mod number;
pub mod font_manager;
pub mod paragraph_builder;
pub mod caret;
pub mod element;
