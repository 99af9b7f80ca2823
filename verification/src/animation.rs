//! Boards, their step rules, magnification and encoding.

pub mod board;
pub mod generate;
pub mod giffify;
pub mod rules;
pub mod start;
pub mod upscale;

pub use board::Board;
pub use board::BoardView;
pub use rules::battle_step;
pub use rules::conway_step;
pub use upscale::up_scale;
pub use start::generate_block_cnt;
pub use start::generate_start_state;
pub use start::BlockId;
pub use start::Identifier;
pub use generate::average;
pub use generate::generate_animation;
pub use generate::generate_battle_animation;
pub use generate::is_challenger_winner;
pub use giffify::giffify;
