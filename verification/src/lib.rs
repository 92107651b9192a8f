//! The core of an INTERCAL toolchain: the bit operators of the language,
//! the variable store, a tree-walking evaluator for parsed programs, and
//! an optimizer that rewrites a program before it is evaluated.
//!
//! Every function comes with a contract, stated over a mathematical model
//! of the program and of the state of an evaluation, and is proved to meet
//! it. Further modules prove what holds of the functions together: that
//! SELECT takes a MINGLE apart, that STASH and RETRIEVE are a stack, and
//! that the passes of the optimizer keep what a program does.

pub mod ast;
pub mod err;
pub mod val;
pub mod valid;

pub mod bits;
pub mod bitlaws;
pub mod patterns;

pub mod chance;
pub mod english;
pub mod labels;
pub mod roman;
pub mod text;

pub mod cells;
pub mod store;
pub mod storelaws;

pub mod certain;
pub mod eval;
pub mod machine;
pub mod run;
pub mod sem;

pub mod constant;
pub mod marks;
pub mod opt;
pub mod passes;
pub mod varmarks;

pub mod andrules;
pub mod peephole;
pub mod sound;
pub mod steady;
pub mod whole;
