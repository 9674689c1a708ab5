pub mod blockchain;
