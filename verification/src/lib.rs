pub mod cloudflare;
pub mod ip;
pub mod text;
pub mod update;
