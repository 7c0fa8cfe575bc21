pub mod brain;
pub mod cell;
pub mod conway;
pub mod grid;
pub mod highlife;
pub mod models;
pub mod rng;
pub mod seeds;
pub mod sim;
pub mod trainer;
pub mod tree;
pub mod util;
