//! Shapes, vectors and contacts.

pub mod body;
pub mod collision;
pub mod line;
pub mod point;
pub mod triangle;
pub mod vector;

pub use self::body::{Interact, Move, Shape};
pub use self::line::Line;
pub use self::point::Point;
pub use self::triangle::Triangle;
pub use self::vector::Vector2D;
