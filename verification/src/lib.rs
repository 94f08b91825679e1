//! Exporting the executables that a build produces.
//!
//! A build tool reports each executable it produces under a file name such as
//! `app-ebb8dd5b587f73a1.exe`: a stem, a hyphen with a hash of sixteen hex
//! digits, and on some platforms the extension `.exe`. The [`name`] module
//! takes such a name apart, drops the hash, and puts the name together again
//! with an optional tag; [`laws`] states what follows for every name, and
//! [`text`] holds what both need to say of sequences of characters.
//!
//! The [`args`] module parts a command line into the exporter's arguments
//! and the build tool's and decides what a run is to do; [`artifact`] tells
//! which records of the build tool's progress stream name an executable.
//! Reading the command line, running the build tool and copying files are
//! left to the program that uses this library.

pub mod args;
pub mod artifact;
pub mod laws;
pub mod name;
pub mod text;

pub use crate::name::target_file_name;
