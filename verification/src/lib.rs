pub mod bytesutil;
pub mod chunks;
pub mod clock;
pub mod crypto;
pub mod facade;
pub mod hexfmt;
pub mod mesh;
pub mod relay;
pub mod strutil;
pub mod transit;
