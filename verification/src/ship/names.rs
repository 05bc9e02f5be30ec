//! The names by which the built-in ships are asked for.
use crate::alu::Alu;
use crate::alu::ScalarFn;
use crate::scalar::ZERO_BITS;
use crate::scalar::num;
use crate::shell::extent::bounds_of;
use crate::shell::segments::curved;
use crate::shell::segments::sequential;
use crate::shell::topology::OpenTopPolicy;
use crate::shell::topology::ShellOpKind;
use crate::shell::topology::ShellTopology;
use crate::ship::expression::Tree;
use crate::ship::lines::HERCULES_STATION_COUNT;
use crate::ship::native::HullShellOptions;
use crate::ship::native::build_native_ship_curve_loft;
use crate::ship::native::build_native_ship_line_loft;
use crate::ship::native::build_native_ship_shell;
use crate::ship::native::closed_thick_options;
use crate::ship::native::closed_thin_options;
use crate::ship::native::is_native_hull;
use crate::ship::native::native_circles;
use crate::ship::native::native_hull_is_bounded;
use crate::ship::native::open_top_options;
use crate::ship::spline::build_spline_ship_shell_tree;
use crate::ship::spline::shell_tree;
use crate::ship::wide::Wide;
use crate::ship::wide::WideFn;
use vstd::prelude::*;

verus! {

/// The character has the Unicode property `White_Space`.
pub open spec fn is_white(c: char) -> bool {
    let n = c as u32;
    ||| 0x9 <= n <= 0xd || n == 0x20 || n == 0x85 || n == 0xa0
    ||| n == 0x1680 || 0x2000 <= n <= 0x200a
    ||| n == 0x2028 || n == 0x2029 || n == 0x202f || n == 0x205f || n == 0x3000
}

/// A text without the white space at its ends.
pub open spec fn trimmed(text: Seq<char>) -> Seq<char>
    decreases text.len(),
{
    if text.len() > 0 && is_white(text.first()) {
        trimmed(text.drop_first())
    } else if text.len() > 0 && is_white(text.last()) {
        trimmed(text.drop_last())
    } else {
        text
    }
}

/// Takes the white space off both ends of a text, by `str::trim`.
///
/// White space is what has the Unicode property `White_Space`; nothing else is
/// taken off, and none is left at an end.
#[verifier::external_body]
fn trim(text: &str) -> (r: &str)
    ensures
        r@ == trimmed(text@),
{
    text.trim()
}

/// The lower case of an ASCII letter; other characters stay as they are.
pub open spec fn lower(c: char) -> char {
    if 'A' <= c && c <= 'Z' {
        (c as u32 + 32) as char
    } else {
        c
    }
}

/// Turns the ASCII letters of a text into lower case, by `str::to_ascii_lowercase`.
///
/// Letters from `A` to `Z` become those from `a` to `z`, and other characters stay
/// as they are.
#[verifier::external_body]
fn to_lower(text: &str) -> (r: String)
    ensures
        r@ == Seq::new(text@.len(), |i: int| lower(text@[i])),
{
    text.to_ascii_lowercase()
}

/// A text without white space at its ends, in lower case.
pub open spec fn normalized(text: Seq<char>) -> Seq<char> {
    Seq::new(trimmed(text).len(), |i: int| lower(trimmed(text)[i]))
}

/// Takes the white space off both ends of a text and turns it into lower case.
pub fn normalize(text: &str) -> (r: String)
    ensures
        r@ == normalized(text@),
{
    to_lower(trim(text))
}

/// A built-in ship.
#[derive(Clone, Copy, Debug, PartialEq, Eq, Structural)]
pub enum ShipTarget {
    /// The native hull as a loft of straight segments.
    NativeLineLoft,
    /// The native hull as a loft of curves.
    NativeCurveLoft,
    /// The native hull shell.
    NativeShell,
    /// The hull shell as an expression.
    Spline(HullShellOptions),
}

/// The options that a name in lower case stands for.
pub open spec fn options_of(name: Seq<char>) -> Option<HullShellOptions> {
    if name == "ship"@ || name == "ship-expression"@ || name == "ship-thick"@ || name
        == "ship-closed-thick"@ {
        Some(closed_thick_options())
    } else if name == "ship-thin"@ || name == "ship-closed-thin"@ {
        Some(closed_thin_options())
    } else if name == "ship-open"@ || name == "ship-open-top"@ {
        Some(open_top_options())
    } else {
        None
    }
}

/// The ship that a name in lower case stands for.
pub open spec fn target_of(name: Seq<char>) -> Option<ShipTarget> {
    if name == "ship-native-line-loft"@ {
        Some(ShipTarget::NativeLineLoft)
    } else if name == "ship-native-curve-loft"@ {
        Some(ShipTarget::NativeCurveLoft)
    } else if name == "ship-native-shell"@ || name == "ship-native-profile-shell"@ || name
        == "ship-native-hull"@ {
        Some(ShipTarget::NativeShell)
    } else {
        match options_of(name) {
            Some(options) => Some(ShipTarget::Spline(options)),
            None => None,
        }
    }
}

/// Returns whether a name is a word.
fn is_word(name: &String, word: &str) -> (r: bool)
    ensures
        r == (name@ == word@),
{
    let word: String = word.to_owned();
    *name == word
}

/// Returns the options that a name in lower case stands for.
pub fn builtin_ship_options(name: &String) -> (r: Option<HullShellOptions>)
    ensures
        r == options_of(name@),
{
    if is_word(name, "ship") || is_word(name, "ship-expression") || is_word(name, "ship-thick")
        || is_word(name, "ship-closed-thick") {
        Some(closed_thick_options())
    } else if is_word(name, "ship-thin") || is_word(name, "ship-closed-thin") {
        Some(closed_thin_options())
    } else if is_word(name, "ship-open") || is_word(name, "ship-open-top") {
        Some(open_top_options())
    } else {
        None
    }
}

/// Returns the ship that a name in lower case stands for.
pub fn ship_target(name: &String) -> (r: Option<ShipTarget>)
    ensures
        r == target_of(name@),
{
    if is_word(name, "ship-native-line-loft") {
        Some(ShipTarget::NativeLineLoft)
    } else if is_word(name, "ship-native-curve-loft") {
        Some(ShipTarget::NativeCurveLoft)
    } else if is_word(name, "ship-native-shell") || is_word(name, "ship-native-profile-shell")
        || is_word(name, "ship-native-hull") {
        Some(ShipTarget::NativeShell)
    } else {
        match builtin_ship_options(name) {
            Some(options) => Some(ShipTarget::Spline(options)),
            None => None,
        }
    }
}

/// Returns whether a text names a built-in ship, whatever its case and the white
/// space around it.
pub fn is_builtin_ship_target(target: &str) -> (r: bool)
    ensures
        r == (target_of(normalized(target@)) is Some),
{
    let name = normalize(target);
    match ship_target(&name) {
        Some(_) => true,
        None => false,
    }
}

/// A built-in ship that can be rendered.
#[derive(Debug)]
pub enum ShipTree {
    /// A loft of straight segments.
    LineLoft(ShellTopology),
    /// A loft of curves.
    CurveLoft(ShellTopology),
    /// A hull shell.
    ShellHull(ShellTopology),
    /// An expression.
    Expression(Tree),
}

/// The native hull has an extent with the given arithmetic, in each of its forms.
pub open spec fn native_ships_are_bounded<A: ScalarFn>(alu: &Alu<A>) -> bool {
    &&& bounds_of(
        alu,
        native_circles(alu),
        sequential(HERCULES_STATION_COUNT as nat),
        num(ZERO_BITS),
    ).is_valid()
    &&& bounds_of(alu, native_circles(alu), curved(alu, native_circles(alu)), num(ZERO_BITS)).is_valid()
    &&& native_hull_is_bounded(alu, closed_thick_options().thickness())
}

impl ShipTree {
    /// The ship is the one that is asked for.
    pub open spec fn is_target<A: ScalarFn, W: WideFn>(
        &self,
        alu: &Alu<A>,
        wide: &Wide<W>,
        target: ShipTarget,
    ) -> bool {
        match target {
            ShipTarget::NativeLineLoft => (self matches ShipTree::LineLoft(topology)
                && topology.is_circular(
                alu,
                ShellOpKind::LineLoft,
                native_circles(alu),
                sequential(HERCULES_STATION_COUNT as nat),
                num(ZERO_BITS),
                OpenTopPolicy::Closed,
            )),
            ShipTarget::NativeCurveLoft => (self matches ShipTree::CurveLoft(topology)
                && topology.is_circular(
                alu,
                ShellOpKind::CurveLoft,
                native_circles(alu),
                curved(alu, native_circles(alu)),
                num(ZERO_BITS),
                OpenTopPolicy::Closed,
            )),
            ShipTarget::NativeShell => (self matches ShipTree::ShellHull(topology)
                && is_native_hull(alu, topology, closed_thick_options())),
            ShipTarget::Spline(options) => (self matches ShipTree::Expression(tree) && tree
                == shell_tree(alu, wide, options)),
        }
    }
}

/// Builds the ship that a text names.
pub fn build_builtin_ship_tree<A: ScalarFn, W: WideFn>(
    alu: &Alu<A>,
    wide: &Wide<W>,
    target: &str,
) -> (r: Option<ShipTree>)
    requires
        native_ships_are_bounded(alu),
    ensures
        match target_of(normalized(target@)) {
            Some(ship) => r matches Some(tree) && tree.is_target(alu, wide, ship),
            None => r is None,
        },
{
    let name = normalize(target);
    match ship_target(&name) {
        Some(ship) => Some(build_ship(alu, wide, ship)),
        None => None,
    }
}

/// Builds a ship.
pub fn build_ship<A: ScalarFn, W: WideFn>(
    alu: &Alu<A>,
    wide: &Wide<W>,
    target: ShipTarget,
) -> (r: ShipTree)
    requires
        native_ships_are_bounded(alu),
    ensures
        r.is_target(alu, wide, target),
{
    match target {
        ShipTarget::NativeLineLoft => ShipTree::LineLoft(build_native_ship_line_loft(alu)),
        ShipTarget::NativeCurveLoft => ShipTree::CurveLoft(build_native_ship_curve_loft(alu)),
        ShipTarget::NativeShell => ShipTree::ShellHull(
            build_native_ship_shell(alu, closed_thick_options()),
        ),
        ShipTarget::Spline(options) => ShipTree::Expression(
            build_spline_ship_shell_tree(alu, wide, options),
        ),
    }
}

/// What every name of a built-in ship stands for; no other name stands for one.
pub proof fn lemma_names_stand_for_ships(name: Seq<char>)
    ensures
        target_of("ship"@) == Some(ShipTarget::Spline(closed_thick_options())),
        target_of("ship-expression"@) == target_of("ship"@),
        target_of("ship-thick"@) == target_of("ship"@),
        target_of("ship-closed-thick"@) == target_of("ship"@),
        target_of("ship-thin"@) == Some(ShipTarget::Spline(closed_thin_options())),
        target_of("ship-closed-thin"@) == target_of("ship-thin"@),
        target_of("ship-open"@) == Some(ShipTarget::Spline(open_top_options())),
        target_of("ship-open-top"@) == target_of("ship-open"@),
        target_of("ship-native-line-loft"@) == Some(ShipTarget::NativeLineLoft),
        target_of("ship-native-curve-loft"@) == Some(ShipTarget::NativeCurveLoft),
        target_of("ship-native-shell"@) == Some(ShipTarget::NativeShell),
        target_of("ship-native-profile-shell"@) == Some(ShipTarget::NativeShell),
        target_of("ship-native-hull"@) == Some(ShipTarget::NativeShell),
        target_of(name) is Some ==> name.len() >= 4 && name[0] == 's' && name[1] == 'h' && name[2]
            == 'i' && name[3] == 'p',
{
    reveal_strlit("ship");
    reveal_strlit("ship-expression");
    reveal_strlit("ship-thick");
    reveal_strlit("ship-closed-thick");
    reveal_strlit("ship-thin");
    reveal_strlit("ship-closed-thin");
    reveal_strlit("ship-open");
    reveal_strlit("ship-open-top");
    reveal_strlit("ship-native-line-loft");
    reveal_strlit("ship-native-curve-loft");
    reveal_strlit("ship-native-shell");
    reveal_strlit("ship-native-profile-shell");
    reveal_strlit("ship-native-hull");
    assert("ship"@.len() == 4);
    assert("ship-expression"@.len() == 15);
    assert("ship-thick"@.len() == 10);
    assert("ship-closed-thick"@.len() == 17);
    assert("ship-thin"@.len() == 9);
    assert("ship-closed-thin"@.len() == 16);
    assert("ship-open"@.len() == 9);
    assert("ship-open-top"@.len() == 13);
    assert("ship-native-line-loft"@.len() == 21);
    assert("ship-native-curve-loft"@.len() == 22);
    assert("ship-native-shell"@.len() == 17);
    assert("ship-native-profile-shell"@.len() == 25);
    assert("ship-native-hull"@.len() == 16);
    assert("ship-thin"@[5] == 't' && "ship-open"@[5] == 'o');
    assert("ship-closed-thin"@[5] == 'c' && "ship-native-hull"@[5] == 'n');
    assert("ship-closed-thick"@[5] == 'c' && "ship-native-shell"@[5] == 'n');
}

} // verus!
