//! A scene bytecode compiler and runtime for raymarching signed distance
//! fields in a fragment shader: a registry of typed shader methods, the
//! GLSL interpreter generated from it, the word layout of the scene ROM that
//! the interpreter reads, and a host-side model of that interpreter.
pub mod scene;
pub mod interpreter;
pub mod methods;
pub mod renderer;
pub mod backend;
