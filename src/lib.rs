pub mod attack;
pub mod bitboards;
pub mod board;
pub mod definitions;
pub mod fen;
pub mod hashkeys;
pub mod init;
