use vstd::prelude::*;

verus! {

/// Lowest port handed to a game server: above the well-known range.
pub const MIN_GAMESERVER_PORT: u16 = 1026;

/// Ports handed out stay below this ceiling.
pub const MAX_GAMESERVER_PORT: u16 = 65000;

/// How many candidates the lobby probes before it gives up.
pub const PORT_ATTEMPTS: u32 = 64;

#[derive(PartialEq, Eq, Structural, Clone, Copy, Debug)]
pub enum PortError {
    /// Every candidate probed was already bound.
    NoPortAvailable,
}

/// What the allocator does after probing one candidate.
#[derive(PartialEq, Eq, Structural, Clone, Copy, Debug)]
pub enum PortStep {
    /// The candidate was free: hand it out.
    Use(u16),
    /// The candidate was taken and attempts remain: draw another.
    Retry,
    /// The candidate was taken and it was the last attempt.
    GiveUp,
}

pub open spec fn in_gameserver_range(port: u16) -> bool {
    MIN_GAMESERVER_PORT <= port < MAX_GAMESERVER_PORT
}

/// Relies on `rand::Rng::gen_range` over `rand::thread_rng`: a value of the
/// half-open range `low..high`, which must not be empty.
#[verifier::external_body]
fn random_port_between(low: u16, high: u16) -> (r: u16)
    requires
        low < high,
    ensures
        low <= r < high,
{
    rand::Rng::gen_range(&mut rand::thread_rng(), low..high)
}

/// Relies on `port_scanner::local_port_available`: whether binding
/// 127.0.0.1 on that port succeeded at the moment of the probe.
#[verifier::external_body]
fn local_port_available(port: u16) -> (r: bool) {
    port_scanner::local_port_available(port)
}

/// Decides on attempt `attempt` (counted from 0) of `max_attempts`, given
/// the candidate drawn and whether the probe found it free.
pub fn port_step(attempt: u32, max_attempts: u32, candidate: u16, available: bool) -> (r: PortStep)
    requires
        attempt < max_attempts,
    ensures
        r == (if available {
            PortStep::Use(candidate)
        } else if attempt + 1 >= max_attempts {
            PortStep::GiveUp
        } else {
            PortStep::Retry
        }),
{
    if available {
        PortStep::Use(candidate)
    } else if attempt + 1 >= max_attempts {
        PortStep::GiveUp
    } else {
        PortStep::Retry
    }
}

/// Draws ports uniformly from the game-server range and probes each one,
/// acting on `port_step` after every probe: the first free candidate is
/// handed out, and after `max_attempts` taken candidates it gives up with
/// `NoPortAvailable`. It never probes more than `max_attempts` times.
pub fn get_free_random_port_for_gameserver(max_attempts: u32) -> (r: Result<u16, PortError>)
    ensures
        r matches Ok(port) ==> in_gameserver_range(port),
        max_attempts == 0 ==> r == Err::<u16, PortError>(PortError::NoPortAvailable),
{
    let mut attempt: u32 = 0;
    while attempt < max_attempts
        invariant
            attempt <= max_attempts,
        decreases max_attempts - attempt,
    {
        let candidate: u16 = random_port_between(MIN_GAMESERVER_PORT, MAX_GAMESERVER_PORT);
        let available = local_port_available(candidate);
        match port_step(attempt, max_attempts, candidate, available) {
            PortStep::Use(port) => {
                return Ok(port);
            },
            PortStep::GiveUp => {
                return Err(PortError::NoPortAvailable);
            },
            PortStep::Retry => {},
        }
        attempt = attempt + 1;
    }
    Err(PortError::NoPortAvailable)
}

pub open spec fn digit_char(d: nat) -> char {
    seq!['0', '1', '2', '3', '4', '5', '6', '7', '8', '9'][d as int]
}

/// Decimal digits of `n`, most significant first, without sign or padding.
pub open spec fn decimal(n: nat) -> Seq<char>
    decreases n,
{
    if n < 10 {
        seq![digit_char(n)]
    } else {
        decimal(n / 10).push(digit_char(n % 10))
    }
}

/// The one-character text of the digit `d`.
fn digit_text(d: u16) -> (r: &'static str)
    requires
        d < 10,
    ensures
        r@ == seq![digit_char(d as nat)],
{
    proof {
        reveal_strlit("0");
        reveal_strlit("1");
        reveal_strlit("2");
        reveal_strlit("3");
        reveal_strlit("4");
        reveal_strlit("5");
        reveal_strlit("6");
        reveal_strlit("7");
        reveal_strlit("8");
        reveal_strlit("9");
    }
    let r = if d == 0 {
        "0"
    } else if d == 1 {
        "1"
    } else if d == 2 {
        "2"
    } else if d == 3 {
        "3"
    } else if d == 4 {
        "4"
    } else if d == 5 {
        "5"
    } else if d == 6 {
        "6"
    } else if d == 7 {
        "7"
    } else if d == 8 {
        "8"
    } else {
        "9"
    };
    assert(r@ =~= seq![digit_char(d as nat)]);
    r
}

/// The decimal text of `port`, as the store keeps it.
pub fn port_text(port: u16) -> (r: String)
    ensures
        r@ == decimal(port as nat),
    decreases port,
{
    let last = digit_text(port % 10);
    if port < 10 {
        String::from_str(last)
    } else {
        let mut text = port_text(port / 10);
        text.append(last);
        text
    }
}

} // verus!
