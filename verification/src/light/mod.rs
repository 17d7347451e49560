//! A light in-process runtime: account storage, the serialized account
//! buffer handed to a program, and the system program's instructions.
pub mod account;
pub mod clock;
pub mod roundtrip;
pub mod serialization_light;
pub mod system_instructions;
pub mod program_stubs;
pub mod light_client;
