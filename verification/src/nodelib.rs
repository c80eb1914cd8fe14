//! Gate compilers that wire Boolean logic into a spin network.

pub mod logic_gates;
