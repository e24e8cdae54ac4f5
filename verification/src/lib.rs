//! Decision logic of an autonomous SpaceTraders fleet bot, verified with Verus.
pub mod text;
pub mod seqs;
pub mod model;
pub mod product_knowledge;
pub mod ship_ops;
pub mod fleet;
pub mod mining;
pub mod clock;
pub mod keyed;
pub mod storage;
pub mod contracts;
pub mod purchasing;
pub mod trading;
pub mod exploration;
pub mod contract_analyzer;
pub mod shipyard;
pub mod ship_roles;
pub mod coordination;
pub mod ship_actor;
pub mod navigation;
pub mod task_planner;
pub mod prioritizer;
pub mod iron_ore_miner;
pub mod output;
