pub mod cursor;
pub mod deque;
pub mod laws;
pub mod string;
pub mod uhv;
