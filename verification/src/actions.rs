//! The closed vocabulary of injection actions and the filename tokens
//! that encode them.

use vstd::prelude::*;
use crate::text::{is_substring, is_dec_digit, lemma_no_match_by_char};

verus! {

/// One of the four mutually exclusive window mutations.
#[derive(Clone, Copy, PartialEq, Eq, Structural, Debug)]
pub enum InjectionAction {
    HideCapture,
    ShowCapture,
    HideTaskbar,
    ShowTaskbar,
}

/// The token that encodes `HideCapture` in an artifact filename.
pub open spec fn token_hide_capture() -> Seq<char> {
    seq!['m', 'o', 'z', 'a', 'v', 'c', 'o', 'd', 'e', 'c']
}

/// The token that encodes `ShowCapture` in an artifact filename.
pub open spec fn token_show_capture() -> Seq<char> {
    seq!['m', 'o', 'z', 'a', 'v', 'u', 't', 'i', 'l']
}

/// The token that encodes `HideTaskbar` in an artifact filename.
pub open spec fn token_hide_taskbar() -> Seq<char> {
    seq!['g', 'k', 'c', 'o', 'd', 'e', 'c', 's']
}

/// The token that encodes `ShowTaskbar` in an artifact filename.
pub open spec fn token_show_taskbar() -> Seq<char> {
    seq!['f', 'r', 'e', 'e', 'b', 'l', '3']
}

/// The action token for each action.
pub open spec fn token_spec(a: InjectionAction) -> Seq<char> {
    match a {
        InjectionAction::HideCapture => token_hide_capture(),
        InjectionAction::ShowCapture => token_show_capture(),
        InjectionAction::HideTaskbar => token_hide_taskbar(),
        InjectionAction::ShowTaskbar => token_show_taskbar(),
    }
}

/// The bit that stands for one action in a decoded action mask.
pub open spec fn mask_bit(a: InjectionAction) -> u8 {
    match a {
        InjectionAction::HideCapture => 1u8,
        InjectionAction::ShowCapture => 2u8,
        InjectionAction::HideTaskbar => 4u8,
        InjectionAction::ShowTaskbar => 8u8,
    }
}

/// The action token, as a string.
pub fn action_token(a: InjectionAction) -> (s: &'static str)
    ensures
        s@ == token_spec(a),
{
    match a {
        InjectionAction::HideCapture => {
            let s = "mozavcodec";
            proof {
                reveal_strlit("mozavcodec");
                assert(s@ =~= token_hide_capture());
            }
            s
        },
        InjectionAction::ShowCapture => {
            let s = "mozavutil";
            proof {
                reveal_strlit("mozavutil");
                assert(s@ =~= token_show_capture());
            }
            s
        },
        InjectionAction::HideTaskbar => {
            let s = "gkcodecs";
            proof {
                reveal_strlit("gkcodecs");
                assert(s@ =~= token_hide_taskbar());
            }
            s
        },
        InjectionAction::ShowTaskbar => {
            let s = "freebl3";
            proof {
                reveal_strlit("freebl3");
                assert(s@ =~= token_show_taskbar());
            }
            s
        },
    }
}

/// Shape facts about every token: it is at least seven characters long,
/// its first character is a letter (never a digit), and it contains no
/// underscore, dot, or path separator.
pub proof fn lemma_token_shape(a: InjectionAction)
    ensures
        7 <= token_spec(a).len() <= 10,
        !is_dec_digit(token_spec(a)[0]),
        forall|i: int|
            0 <= i < token_spec(a).len() ==> #[trigger] token_spec(a)[i] != '_'
                && token_spec(a)[i] != '.' && token_spec(a)[i] != '\\' && token_spec(a)[i] != '/',
{
}

/// No action token occurs as a substring of a different action's token,
/// so the tokens can never be confused inside an artifact name.
pub proof fn lemma_tokens_not_substrings(a: InjectionAction, b: InjectionAction)
    requires
        a != b,
    ensures
        !is_substring(token_spec(b), token_spec(a)),
{
    let ta = token_spec(a);
    let tb = token_spec(b);
    match b {
        InjectionAction::HideCapture => {
            // 'c' at index 5 of the needle; absent from `mozavutil`;
            // 'm' at index 0, absent from the other two tokens
            match a {
                InjectionAction::ShowCapture => lemma_no_match_by_char(tb, ta, 5),
                _ => lemma_no_match_by_char(tb, ta, 0),
            }
        },
        InjectionAction::ShowCapture => {
            // 'u' at index 5, absent from `mozavcodec`; 'm' for the rest
            match a {
                InjectionAction::HideCapture => lemma_no_match_by_char(tb, ta, 5),
                _ => lemma_no_match_by_char(tb, ta, 0),
            }
        },
        InjectionAction::HideTaskbar => {
            // 'g' at index 0, absent from every other token
            lemma_no_match_by_char(tb, ta, 0);
        },
        InjectionAction::ShowTaskbar => {
            // 'f' at index 0, absent from every other token
            lemma_no_match_by_char(tb, ta, 0);
        },
    }
}

} // verus!
