use vstd::prelude::*;
use crate::game_logic::types::Referee;

verus! {

/// A packet from the SSL multicast streams: a referee packet, or a vision
/// packet `W`.
pub enum Event<W> {
    Referee(Referee),
    SslWrapper(W),
}

} // verus!
