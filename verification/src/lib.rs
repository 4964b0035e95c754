//! A singly-linked stack: LIFO push/pop at the head, peeking, and
//! consuming, shared, and mutable traversal over the chain of nodes.

pub mod stack;
