pub mod chart;
pub mod layout;
pub mod media;
pub mod qr;
pub mod table;
pub mod text;
