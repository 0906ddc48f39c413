//! One-shot commands raised between frames and consumed exactly once.
use vstd::prelude::*;

verus! {

/// Minor quanta in the assembly that `AddTriplet` builds.
pub const TRIPLET_MINORS: usize = 3;

/// Minor quanta in the assembly that `AddHex` builds.
pub const HEX_MINORS: usize = 6;

/// Assemblies that `AddSome` builds, each with between
/// `BATCH_MINORS_MIN` and `BATCH_MINORS_MAX` minor quanta.
pub const BATCH_ASSEMBLIES: usize = 12;

pub const BATCH_MINORS_MIN: usize = 1;

pub const BATCH_MINORS_MAX: usize = 5;

/// The command flags a menu can raise.
#[derive(Clone, Copy, Debug, PartialEq, Eq, Structural)]
pub struct Signals {
    pub add_single_quant: bool,
    pub add_some_quants: bool,
    pub add_hex_quant: bool,
    pub add_state_matter: bool,
    pub reset_all: bool,
}

/// What a raised flag asks the simulation to do.
#[derive(Clone, Copy, Debug, PartialEq, Eq, Structural)]
pub enum Command {
    /// Build one three-minor assembly.
    AddTriplet,
    /// Build a batch of assemblies with varied minor counts.
    AddSome,
    /// Build one six-minor assembly.
    AddHex,
    /// Clear the whole world.
    ResetAll,
}

/// The commands that the raised flags ask for, in the order they are run.
pub open spec fn commands_of(s: Signals) -> Seq<Command> {
    let a = if s.add_single_quant { seq![Command::AddTriplet] } else { Seq::empty() };
    let b = if s.add_some_quants { seq![Command::AddSome] } else { Seq::empty() };
    let c = if s.add_hex_quant { seq![Command::AddHex] } else { Seq::empty() };
    let d = if s.reset_all { seq![Command::ResetAll] } else { Seq::empty() };
    a + b + c + d
}

impl Default for Signals {
    fn default() -> (r: Signals)
        ensures
            !r.add_single_quant,
            !r.add_some_quants,
            !r.add_hex_quant,
            !r.add_state_matter,
            !r.reset_all,
    {
        Signals {
            add_single_quant: false,
            add_some_quants: false,
            add_hex_quant: false,
            add_state_matter: false,
            reset_all: false,
        }
    }
}

impl Signals {
    /// Takes the raised commands and lowers their flags, so each raise is
    /// acted on once. The state-matter flag has no command yet and is left
    /// as it is.
    pub fn take_commands(&mut self) -> (r: Vec<Command>)
        ensures
            r@ == commands_of(*old(self)),
            !final(self).add_single_quant,
            !final(self).add_some_quants,
            !final(self).add_hex_quant,
            !final(self).reset_all,
            final(self).add_state_matter == old(self).add_state_matter,
    {
        let mut r: Vec<Command> = Vec::new();
        if self.add_single_quant {
            self.add_single_quant = false;
            r.push(Command::AddTriplet);
        }
        if self.add_some_quants {
            self.add_some_quants = false;
            r.push(Command::AddSome);
        }
        if self.add_hex_quant {
            self.add_hex_quant = false;
            r.push(Command::AddHex);
        }
        if self.reset_all {
            self.reset_all = false;
            r.push(Command::ResetAll);
        }
        assert(r@ =~= commands_of(*old(self)));
        r
    }
}

/// Taking the commands twice in a row yields nothing the second time: each
/// raise is consumed exactly once.
pub proof fn lemma_commands_taken_once(s: Signals)
    ensures
        commands_of(Signals {
            add_single_quant: false,
            add_some_quants: false,
            add_hex_quant: false,
            reset_all: false,
            ..s
        }).len() == 0,
{
}

} // verus!
