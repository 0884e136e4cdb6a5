pub mod biome;
pub mod chunks;
pub mod history;
pub mod input;
pub mod monsters;
pub mod net_sim;
pub mod noise;
pub mod prng;
pub mod replication;
pub mod settings;
pub mod slots;
pub mod sprite;
pub mod viewport;
