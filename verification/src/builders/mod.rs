//! Builders: agents that walk through a world of walls and food, pulling
//! walls behind them. The agents' decisions come from a neural network; the
//! world they act in is here.
pub mod wall_sim;
pub mod worldgen;
