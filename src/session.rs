//! Session core: the single owner of a match's state. It takes moves from
//! the seat whose turn it is, validates and applies them, and says which
//! events go to which seat. Running the queues is left to the caller, which
//! hands each received move to `handle_move` and delivers what comes back.

use vstd::prelude::*;
use crate::board::{Move, MoveResult, PlayerID};
use crate::game::{QGame, Rulebook, same_state};

verus! {

/// An event delivered to a seat.
pub enum GameEvent<Rb: Rulebook> {
    /// The match began: its initial state and the receiving seat's id.
    GameStart(QGame<Rb>, PlayerID),
    /// A move was played.
    MoveHappened(Move),
    /// The receiving seat is to move.
    YourTurn,
    /// The receiving seat's move was accepted.
    ValidMove,
    /// The receiving seat's move was refused; it is still to move.
    InvalidMove,
    /// Another seat left the match.
    OpponentQuit,
    /// The match ended, with the winning seat if there is one.
    GameEnd(Option<PlayerID>),
}

/// An event addressed to one seat.
pub struct Delivery<Rb: Rulebook> {
    pub seat: PlayerID,
    pub event: GameEvent<Rb>,
}

/// Where a match stands.
#[derive(Clone, Copy, Debug, PartialEq, Eq, Structural)]
pub enum SessionState {
    /// Waiting for the given seat's move.
    AwaitingMove(PlayerID),
    /// Over, with the result of the last move.
    Terminal(MoveResult),
}

/// One match: its state and where it stands.
pub struct Session<Rb: Rulebook> {
    pub game: QGame<Rb>,
    pub state: SessionState,
}

/// The seat that a final result names as winner, if any.
pub open spec fn winner(r: MoveResult) -> Option<PlayerID> {
    match r {
        MoveResult::Win(s) => Some(s),
        _ => None,
    }
}

/// The event `ev` sent to each of `n` seats, in seat order.
pub open spec fn to_all<Rb: Rulebook>(n: u8, ev: GameEvent<Rb>) -> Seq<Delivery<Rb>> {
    Seq::new(n as nat, |i: int| Delivery { seat: i as u8, event: ev })
}

/// The event `ev` sent to each of `n` seats but `quitter`, in seat order.
pub open spec fn to_others<Rb: Rulebook>(n: u8, quitter: u8, ev: GameEvent<Rb>) -> Seq<Delivery<Rb>> {
    to_all(n, ev).filter(|d: Delivery<Rb>| d.seat != quitter)
}

/// What follows a legal move with result `r`, after which seat `next` is
/// active: the move goes to every seat, then either `next` is asked to move
/// or every seat learns that the match ended.
pub open spec fn after_move<Rb: Rulebook>(m: Move, r: MoveResult, next: u8) -> Seq<Delivery<Rb>> {
    to_all(Rb::PLAYER_COUNT, GameEvent::MoveHappened(m)) + if r == MoveResult::Continue {
        seq![Delivery { seat: next, event: GameEvent::YourTurn }]
    } else {
        to_all(Rb::PLAYER_COUNT, GameEvent::GameEnd(winner(r)))
    }
}

/// Where a match stands after a move with result `r`, with seat `next` active.
pub open spec fn state_after(r: MoveResult, next: u8) -> SessionState {
    if r == MoveResult::Continue {
        SessionState::AwaitingMove(next)
    } else {
        SessionState::Terminal(r)
    }
}

/// Copies an event that carries no game state.
fn copy_event<Rb: Rulebook>(ev: &GameEvent<Rb>) -> (r: GameEvent<Rb>)
    requires
        !(ev is GameStart),
    ensures
        r == *ev,
{
    match ev {
        GameEvent::MoveHappened(m) => GameEvent::MoveHappened(*m),
        GameEvent::YourTurn => GameEvent::YourTurn,
        GameEvent::ValidMove => GameEvent::ValidMove,
        GameEvent::InvalidMove => GameEvent::InvalidMove,
        GameEvent::OpponentQuit => GameEvent::OpponentQuit,
        GameEvent::GameEnd(w) => GameEvent::GameEnd(*w),
        // Ruled out by the precondition.
        GameEvent::GameStart(_, _) => GameEvent::YourTurn,
    }
}

/// Appends `ev` for every seat, in seat order.
fn push_to_all<Rb: Rulebook>(out: &mut Vec<Delivery<Rb>>, ev: GameEvent<Rb>)
    requires
        !(ev is GameStart),
    ensures
        final(out)@ == old(out)@ + to_all(Rb::PLAYER_COUNT, ev),
{
    let ghost start = old(out)@;
    let mut seat: u8 = 0;
    while seat < Rb::PLAYER_COUNT
        invariant
            seat <= Rb::PLAYER_COUNT,
            !(ev is GameStart),
            out@ == start + Seq::new(seat as nat, |i: int| Delivery { seat: i as u8, event: ev }),
        decreases Rb::PLAYER_COUNT - seat,
    {
        out.push(Delivery { seat, event: copy_event(&ev) });
        seat = seat + 1;
        assert(out@ =~= start + Seq::new(seat as nat, |i: int| Delivery { seat: i as u8, event: ev }));
    }
    assert(out@ =~= start + to_all(Rb::PLAYER_COUNT, ev));
}

impl<Rb: Rulebook> Session<Rb> {
    /// Whether the session's state is consistent: a reachable game, and when
    /// waiting, waiting on the seat whose turn it is.
    pub open spec fn wf(&self) -> bool {
        &&& Rb::wf(&self.game)
        &&& self.game.turn_of < Rb::PLAYER_COUNT
        &&& (self.state is AwaitingMove ==> self.state == SessionState::AwaitingMove(self.game.turn_of))
    }

    /// Starts a match from the rulebook's initial state. Every seat, in
    /// order, gets the initial state and its own id; then the first active
    /// seat is asked to move.
    pub fn new() -> (r: (Session<Rb>, Vec<Delivery<Rb>>))
        ensures
            r.0.wf(),
            Rb::initial(&r.0.game),
            r.0.state == SessionState::AwaitingMove(r.0.game.turn_of),
            r.1@.len() == Rb::PLAYER_COUNT + 1,
            forall|i: int| 0 <= i < Rb::PLAYER_COUNT ==> {
                &&& #[trigger] r.1@[i].seat == i
                &&& r.1@[i].event matches GameEvent::GameStart(g, id) && id == i && same_state(&g, &r.0.game)
            },
            r.1@[Rb::PLAYER_COUNT as int] == (Delivery::<Rb> { seat: r.0.game.turn_of, event: GameEvent::YourTurn }),
    {
        let game = Rb::initial_server();
        let mut out: Vec<Delivery<Rb>> = Vec::new();
        let mut seat: u8 = 0;
        while seat < Rb::PLAYER_COUNT
            invariant
                seat <= Rb::PLAYER_COUNT,
                out@.len() == seat,
                forall|i: int| 0 <= i < seat ==> {
                    &&& #[trigger] out@[i].seat == i
                    &&& out@[i].event matches GameEvent::GameStart(g, id) && id == i && same_state(&g, &game)
                },
            decreases Rb::PLAYER_COUNT - seat,
        {
            out.push(Delivery { seat, event: GameEvent::GameStart(game.snapshot(), seat) });
            seat = seat + 1;
        }
        out.push(Delivery { seat: game.turn_of, event: GameEvent::YourTurn });
        let turn = game.turn_of;
        (Session { game, state: SessionState::AwaitingMove(turn) }, out)
    }

    /// The seat whose move is awaited, or `None` once the match is over.
    pub fn active_seat(&self) -> (r: Option<PlayerID>)
        ensures
            r == (match self.state {
                SessionState::AwaitingMove(s) => Some(s),
                SessionState::Terminal(_) => None,
            }),
    {
        match self.state {
            SessionState::AwaitingMove(s) => Some(s),
            SessionState::Terminal(_) => None,
        }
    }

    /// Handles a move received from the active seat. An illegal move changes
    /// nothing and is answered to that seat alone; a legal one is applied,
    /// sent to every seat, and followed by a request to the next seat or by
    /// the end of the match.
    pub fn handle_move(&mut self, qmove: Move) -> (out: Vec<Delivery<Rb>>)
        requires
            old(self).wf(),
            old(self).state is AwaitingMove,
        ensures
            final(self).wf(),
            !Rb::valid(&old(self).game, qmove) ==> {
                &&& *final(self) == *old(self)
                &&& out@ == seq![Delivery::<Rb> { seat: old(self).game.turn_of, event: GameEvent::InvalidMove }]
            },
            Rb::valid(&old(self).game, qmove) ==> exists|r: MoveResult| {
                &&& Rb::applied(&old(self).game, qmove, &final(self).game, r)
                &&& final(self).state == state_after(r, final(self).game.turn_of)
                &&& out@ == after_move::<Rb>(qmove, r, final(self).game.turn_of)
            },
    {
        let seat = self.game.turn_of;
        let ghost pre = self.game;
        if Rb::validate_move(&self.game, qmove).is_err() {
            let mut out: Vec<Delivery<Rb>> = Vec::new();
            out.push(Delivery { seat, event: GameEvent::InvalidMove });
            return out;
        }
        let r = Rb::apply_move(&mut self.game, qmove);
        let mut out: Vec<Delivery<Rb>> = Vec::new();
        push_to_all(&mut out, GameEvent::MoveHappened(qmove));
        let next = self.game.turn_of;
        match r {
            MoveResult::Continue => {
                out.push(Delivery { seat: next, event: GameEvent::YourTurn });
                self.state = SessionState::AwaitingMove(next);
            },
            _ => {
                let w = match r {
                    MoveResult::Win(s) => Some(s),
                    _ => None,
                };
                push_to_all(&mut out, GameEvent::GameEnd(w));
                self.state = SessionState::Terminal(r);
            },
        }
        proof {
            assert(out@ =~= after_move::<Rb>(qmove, r, next));
            assert(Rb::applied(&pre, qmove, &self.game, r));
            assert(self.state == state_after(r, next));
        }
        out
    }

    /// Handles the departure of seat `quitter`: every other seat, in order,
    /// learns of it. The match itself stays where it is.
    pub fn seat_quit(&self, quitter: PlayerID) -> (out: Vec<Delivery<Rb>>)
        ensures
            out@ == to_others::<Rb>(Rb::PLAYER_COUNT, quitter, GameEvent::OpponentQuit),
    {
        let mut out: Vec<Delivery<Rb>> = Vec::new();
        let mut seat: u8 = 0;
        while seat < Rb::PLAYER_COUNT
            invariant
                seat <= Rb::PLAYER_COUNT,
                out@ == Seq::new(seat as nat, |i: int| Delivery::<Rb> { seat: i as u8, event: GameEvent::OpponentQuit })
                    .filter(|d: Delivery<Rb>| d.seat != quitter),
            decreases Rb::PLAYER_COUNT - seat,
        {
            let ghost prev = Seq::new(seat as nat, |i: int| Delivery::<Rb> { seat: i as u8, event: GameEvent::OpponentQuit });
            let ghost next = Seq::new((seat + 1) as nat, |i: int| Delivery::<Rb> { seat: i as u8, event: GameEvent::OpponentQuit });
            proof {
                assert(next.drop_last() =~= prev);
                assert(next.last() == Delivery::<Rb> { seat, event: GameEvent::OpponentQuit });
                reveal(Seq::filter);
            }
            if seat != quitter {
                out.push(Delivery { seat, event: GameEvent::OpponentQuit });
            }
            seat = seat + 1;
        }
        proof {
            assert(Seq::new(Rb::PLAYER_COUNT as nat, |i: int| Delivery::<Rb> { seat: i as u8, event: GameEvent::OpponentQuit })
                =~= to_all::<Rb>(Rb::PLAYER_COUNT, GameEvent::OpponentQuit));
        }
        out
    }
}

} // verus!
