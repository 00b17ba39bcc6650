//! Permission bits of files and folders.

use crate::text::{cat2, digit};
use vstd::prelude::*;

verus! {

/// What may be done with a file or a folder, and by whom.
#[derive(Debug, Clone, Copy, PartialEq, Eq, Structural)]
pub enum Modes {
    OwnerReadWrite,
    OwnerReadWriteExecute,
    OwnerReadGroupRead,
    OwnerReadWriteGroupRead,
    OwnerReadWriteGroupReadWrite,
    OwnerReadWriteExecuteGroupReadWriteExecute,
    OwnerReadWriteExecuteGroupReadWriteExecuteOtherExecute,
    InheritedOwnerReadWriteExecuteGroupReadWriteExecute,
    InheritedOwnerReadWriteExecuteGroupReadWriteExecuteOtherExecute,
    Other(u32),
}

/// A number written in octal digits, without leading zeros.
pub open spec fn octal(n: nat) -> Seq<char>
    decreases n,
{
    if n < 8 {
        seq![digit(n)]
    } else {
        octal(n / 8).push(digit(n % 8))
    }
}

fn octal_text(n: u32) -> (r: String)
    ensures
        r@ == octal(n as nat),
    decreases n,
{
    let last: char = match n % 8 {
        0 => '0',
        1 => '1',
        2 => '2',
        3 => '3',
        4 => '4',
        5 => '5',
        6 => '6',
        _ => '7',
    };
    if n < 8 {
        let mut s: String = String::new();
        s.push(last);
        assert(s@ =~= seq![digit(n as nat)]);
        s
    } else {
        let mut s: String = octal_text(n / 8);
        s.push(last);
        s
    }
}

impl Modes {
    /// The permission bits.
    pub open spec fn bits_of(self) -> u32 {
        match self {
            Modes::OwnerReadWrite => 0o600,
            Modes::OwnerReadWriteExecute => 0o700,
            Modes::OwnerReadGroupRead => 0o440,
            Modes::OwnerReadWriteGroupRead => 0o640,
            Modes::OwnerReadWriteGroupReadWrite => 0o660,
            Modes::OwnerReadWriteExecuteGroupReadWriteExecute => 0o770,
            Modes::OwnerReadWriteExecuteGroupReadWriteExecuteOtherExecute => 0o771,
            Modes::InheritedOwnerReadWriteExecuteGroupReadWriteExecute => 0o2770,
            Modes::InheritedOwnerReadWriteExecuteGroupReadWriteExecuteOtherExecute => 0o2771,
            Modes::Other(bits) => bits,
        }
    }

    /// The permission bits.
    pub fn bits(&self) -> (r: u32)
        ensures
            r == self.bits_of(),
    {
        match self {
            Modes::OwnerReadWrite => 0o600,
            Modes::OwnerReadWriteExecute => 0o700,
            Modes::OwnerReadGroupRead => 0o440,
            Modes::OwnerReadWriteGroupRead => 0o640,
            Modes::OwnerReadWriteGroupReadWrite => 0o660,
            Modes::OwnerReadWriteExecuteGroupReadWriteExecute => 0o770,
            Modes::OwnerReadWriteExecuteGroupReadWriteExecuteOtherExecute => 0o771,
            Modes::InheritedOwnerReadWriteExecuteGroupReadWriteExecute => 0o2770,
            Modes::InheritedOwnerReadWriteExecuteGroupReadWriteExecuteOtherExecute => 0o2771,
            Modes::Other(bits) => *bits,
        }
    }

    /// The mode as it is written: `0o` and the bits in octal.
    pub open spec fn text(self) -> Seq<char> {
        "0o"@ + octal(self.bits_of() as nat)
    }

    /// The mode as it is written.
    pub fn to_text(&self) -> (r: String)
        ensures
            r@ == self.text(),
    {
        let digits: String = octal_text(self.bits());
        cat2("0o", &digits)
    }
}

/// The mode that every mount of a seedling has.
pub const EXPECTED_MOUNT_MODE: Modes = Modes::InheritedOwnerReadWriteExecuteGroupReadWriteExecute;

/// The number that a row of octal digits stands for.
pub open spec fn octal_value(s: Seq<char>) -> nat
    decreases s.len(),
{
    if s.len() == 0 {
        0
    } else {
        octal_value(s.drop_last()) * 8 + (s.last() as u32 - '0' as u32) as nat
    }
}

/// A number that is written in octal stands for itself, in digits below eight and without leading
/// zeros.
pub proof fn law_octal_stands_for_the_number(n: nat)
    ensures
        octal_value(octal(n)) == n,
        octal(n).len() > 0,
        n > 0 ==> octal(n)[0] != '0',
        forall|i: int| 0 <= i < octal(n).len() ==> '0' <= #[trigger] octal(n)[i] && octal(n)[i]
            <= '7',
    decreases n,
{
    let s = octal(n);
    if n < 8 {
        assert(s.drop_last() =~= Seq::<char>::empty());
        assert(octal_value(s.drop_last()) == 0);
    } else {
        law_octal_stands_for_the_number(n / 8);
        assert(s.drop_last() =~= octal(n / 8));
        assert forall|i: int| 0 <= i < s.len() implies '0' <= #[trigger] s[i] && s[i] <= '7' by {
            if i < s.len() - 1 {
                assert(s[i] == octal(n / 8)[i]);
            }
        }
    }
}

/// A mode lets its owner read always, its group only where its name says so, and all others do no
/// more than enter. Its name says what it does: reading counts four, writing two and entering one;
/// the bit that makes new files inherit the group is set where the name begins with that.
pub proof fn law_modes_do_what_they_are_called(mode: Modes)
    ensures
        ({
            let bits = mode.bits_of();
            let owner = (bits / 64) % 8;
            let group = (bits / 8) % 8;
            let others = bits % 8;
            let inherited = bits / 512 == 2;
            match mode {
                Modes::OwnerReadWrite => owner == 4 + 2 && group == 0 && others == 0 && !inherited,
                Modes::OwnerReadWriteExecute => owner == 4 + 2 + 1 && group == 0 && others == 0
                    && !inherited,
                Modes::OwnerReadGroupRead => owner == 4 && group == 4 && others == 0 && !inherited,
                Modes::OwnerReadWriteGroupRead => owner == 4 + 2 && group == 4 && others == 0
                    && !inherited,
                Modes::OwnerReadWriteGroupReadWrite => owner == 4 + 2 && group == 4 + 2 && others
                    == 0 && !inherited,
                Modes::OwnerReadWriteExecuteGroupReadWriteExecute => owner == 4 + 2 + 1 && group
                    == 4 + 2 + 1 && others == 0 && !inherited,
                Modes::OwnerReadWriteExecuteGroupReadWriteExecuteOtherExecute => owner == 4 + 2 + 1
                    && group == 4 + 2 + 1 && others == 1 && !inherited,
                Modes::InheritedOwnerReadWriteExecuteGroupReadWriteExecute => owner == 4 + 2 + 1
                    && group == 4 + 2 + 1 && others == 0 && inherited,
                Modes::InheritedOwnerReadWriteExecuteGroupReadWriteExecuteOtherExecute => owner == 4
                    + 2 + 1 && group == 4 + 2 + 1 && others == 1 && inherited,
                Modes::Other(given) => bits == given,
            }
        }),
{
}

/// A mode's text is `0o` and octal digits that stand for its bits.
pub proof fn law_texts_of_modes_stand_for_their_bits(mode: Modes)
    ensures
        mode.text().take(2) == seq!['0', 'o'],
        octal_value(mode.text().skip(2)) == mode.bits_of(),
{
    reveal_strlit("0o");
    assert(mode.text().take(2) =~= seq!['0', 'o']);
    assert(mode.text().skip(2) =~= octal(mode.bits_of() as nat));
    law_octal_stands_for_the_number(mode.bits_of() as nat);
}

} // verus!
