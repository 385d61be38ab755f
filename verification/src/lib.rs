pub mod codec;
pub mod equity;
pub mod game;
pub mod game_kuhn;
pub mod game_push_fold;
pub mod hands;
pub mod pair_sums;

pub use codec::TableError;
pub use game::{Action, Game, GameNode, PublicHistory};
pub use game_kuhn::{KuhnGame, KuhnNode};
pub use game_push_fold::PushFoldNode;
