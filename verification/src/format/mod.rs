pub mod binary_format;
pub mod bytes;
pub mod clock;
pub mod deserializer;
pub mod roundtrip;
pub mod serializer;
pub mod wire;
