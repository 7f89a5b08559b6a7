//! A bytecode compiler and stack virtual machine for the Lox scripting language.
//!
//! Source text is scanned into tokens ([`scanner`]), parsed by a single-pass Pratt parser that
//! emits bytecode as it goes ([`compiler`], with the table of parse rules in [`rules`]), and run
//! by a stack machine with call frames ([`vm`]). A chunk of bytecode ([`chunk`]) can be read
//! back by the disassembler ([`disassembler`]).
//!
//! Every function is specified against a mathematical model and proved to meet it:
//! [`compiler_model`] and [`grammar`] hold the compiler as a function from source text to
//! functions or diagnostics, [`vm_model`] the machine as a function from a state and an event
//! to the next state and an action, [`code`] what it means that code is made of whole
//! instructions, and [`short_circuit`] how the machine runs the code of `and` and `or`.
//!
//! Numbers are IEEE-754 doubles, held by their bit patterns. The library compares and negates
//! them. What else is done with them is the host's: the host hands the compiler the values of
//! the number literals, and does the arithmetic and the printing that the machine asks for.

pub mod chunk;
pub mod code;
pub mod compiler;
pub mod compiler_model;
pub mod diagnostic;
pub mod disassembler;
pub mod globals;
pub mod grammar;
pub mod rules;
pub mod scanner;
pub mod short_circuit;
pub mod text;
pub mod value;
pub mod vm;
pub mod vm_model;
