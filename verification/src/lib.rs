pub mod betting;
pub mod best_hand;
pub mod card;
pub mod deck;
pub mod hand_eval;
pub mod player;
pub(crate) mod shuffle;
