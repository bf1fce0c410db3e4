//! What the library takes from the `serenity` crate: how a member's
//! permission flags are read, and how a server's identifier is written
//! out. The two calls into the crate are trusted, not proved; all that is
//! said of them stands in the contracts of `administrator` and
//! `guild_id_text`.

use serenity::model::id::GuildId;
use serenity::model::Permissions;
use vstd::prelude::*;

verus! {

/// The bit of a member's permission flags that marks an administrator.
pub const ADMINISTRATOR: u64 = 0x8;

/// Whether permission flags include the administrator permission.
pub open spec fn is_administrator(flags: u64) -> bool {
    (flags & ADMINISTRATOR) == ADMINISTRATOR
}

/// The character that stands for a digit.
pub open spec fn digit(value: nat) -> char {
    if value == 0 {
        '0'
    } else if value == 1 {
        '1'
    } else if value == 2 {
        '2'
    } else if value == 3 {
        '3'
    } else if value == 4 {
        '4'
    } else if value == 5 {
        '5'
    } else if value == 6 {
        '6'
    } else if value == 7 {
        '7'
    } else if value == 8 {
        '8'
    } else {
        '9'
    }
}

/// A number written in base ten, without sign and without leading zeros.
pub open spec fn decimal(value: nat) -> Seq<char>
    decreases value,
{
    if value < 10 {
        seq![digit(value)]
    } else {
        decimal(value / 10).push(digit(value % 10))
    }
}

/// Calls `Permissions::administrator` on the permission set that
/// `Permissions::from_bits_truncate` makes of `flags`. Trusted: the answer
/// is `true` exactly when the administrator bit is set in `flags`.
#[verifier::external_body]
pub(crate) fn administrator(flags: u64) -> (admin: bool)
    ensures
        admin == is_administrator(flags),
{
    Permissions::from_bits_truncate(flags).administrator()
}

/// Writes a server's identifier out through the `Display` impl of
/// `GuildId`. Trusted: the text is the identifier in base ten.
#[verifier::external_body]
pub(crate) fn guild_id_text(server: u64) -> (text: String)
    ensures
        text@ == decimal(server as nat),
{
    GuildId(server).to_string()
}

/// The name under which a server's record is kept: the server's identifier
/// in base ten.
pub fn record_name(server: u64) -> (name: String)
    ensures
        name@ == decimal(server as nat),
{
    guild_id_text(server)
}

/// A number in base ten is at least one character long and made of digits
/// only.
pub proof fn lemma_decimal_digits(value: nat)
    ensures
        decimal(value).len() >= 1,
        forall|i: int|
            0 <= i < decimal(value).len() ==> '0' <= #[trigger] decimal(value)[i] <= '9',
    decreases value,
{
    if value >= 10 {
        lemma_decimal_digits(value / 10);
    }
}

/// Two numbers that are written alike are the same number: no two servers
/// share a record.
pub proof fn lemma_decimal_injective(a: nat, b: nat)
    requires
        decimal(a) == decimal(b),
    ensures
        a == b,
    decreases a,
{
    lemma_decimal_digits(a / 10);
    lemma_decimal_digits(b / 10);
    if a < 10 && b < 10 {
        assert(digit(a) == decimal(a)[0]);
        assert(digit(b) == decimal(b)[0]);
    } else if a >= 10 && b >= 10 {
        assert(digit(a % 10) == decimal(a).last());
        assert(digit(b % 10) == decimal(b).last());
        assert(decimal(a).drop_last() =~= decimal(a / 10));
        assert(decimal(b).drop_last() =~= decimal(b / 10));
        lemma_decimal_injective(a / 10, b / 10);
    } else if a < 10 {
        assert(decimal(a).len() == 1);
        assert(decimal(b).len() == decimal(b / 10).len() + 1);
    } else {
        assert(decimal(b).len() == 1);
        assert(decimal(a).len() == decimal(a / 10).len() + 1);
    }
}

} // verus!
