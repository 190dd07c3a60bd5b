//! Turns the shell transcripts of a Markdown document into one bash test
//! script.
//!
//! Fenced code blocks whose info string holds a selector tag are read as
//! transcripts: lines that begin with `$ ` are commands, the others are what
//! the commands printed. Each command becomes a stanza of the script that
//! runs it and checks its exit status or its output.
//!
//! The work goes in five steps, each with its module:
//!
//! - [`reader`] reads the text into a document tree;
//! - [`document`] finds the code blocks of the tree, in document order;
//! - [`tags`] reads the directives of a block's info string;
//! - [`transcript`] and [`convert`] read the bodies of the selected blocks
//!   as commands;
//! - [`command`] and [`script`] write the stanza of each command and the
//!   script around them.
//!
//! [`compile`] does all five at once. [`text`], [`number`] and [`shell`]
//! hold what the steps need of strings, numerals and shell quoting.
//!
//! Every function states what it returns over plain sequences of characters,
//! and the proof functions named `lemma_..` state what holds of all
//! documents: that commands follow the command lines of the selected blocks,
//! that only the last command of a block carries its tags, that the script is
//! framed by its first and last line, and that quoted text is read back by
//! the shell as it was.

pub mod command;
pub mod compile;
pub mod convert;
pub mod document;
pub mod number;
pub mod reader;
pub mod script;
pub mod shell;
pub mod tags;
pub mod text;
pub mod transcript;
