pub mod buffer;
pub mod document;
pub mod editor;
pub mod growth;
pub mod image;
pub mod small_array;
pub mod utf8;
pub mod vector;
pub mod vector2;
