//! Artifact names: the uniquely named on-disk copies of the payload module
//! that carry an action token, and the decoding a payload performs on its
//! own load path.

use vstd::prelude::*;
use crate::actions::{
    InjectionAction, token_spec, token_hide_capture, token_show_capture, token_hide_taskbar,
    token_show_taskbar, action_token, lemma_token_shape, lemma_tokens_not_substrings,
};
use crate::text::{
    is_substring, is_prefix, is_suffix, is_dec_digit, dec_digits, dec_string, lower_of, to_lower,
    contains_str, starts_with_str, ends_with_str, lemma_substring_split, lemma_substring_too_long,
    lemma_no_match_by_char, lemma_dec_digits_injective,
};

verus! {

/// The module filename extension, with its leading dot.
pub open spec fn dll_ext() -> Seq<char> {
    seq!['.', 'd', 'l', 'l']
}

/// The artifact filename for an action and a uniqueness suffix:
/// `<token>_<suffix>.dll`.
pub open spec fn artifact_name_spec(a: InjectionAction, uniq: Seq<char>) -> Seq<char> {
    token_spec(a) + seq!['_'] + uniq + dll_ext()
}

/// Builds the artifact filename for an action from a counter value.
pub fn build_artifact_name(a: InjectionAction, counter: u64) -> (name: String)
    ensures
        name@ == artifact_name_spec(a, dec_digits(counter as nat)),
{
    let mut name = String::from_str(action_token(a));
    let sep = "_";
    let ext = ".dll";
    proof {
        reveal_strlit("_");
        reveal_strlit(".dll");
        assert(sep@ =~= seq!['_']);
        assert(ext@ =~= dll_ext());
    }
    name.append(sep);
    let digits = dec_string(counter);
    name.append(digits.as_str());
    name.append(ext);
    name
}

/// Hands out artifact names that can never repeat: each name embeds a
/// strictly increasing counter. The caller seeds the counter once per
/// process run.
pub struct ArtifactNamer {
    pub counter: u64,
}

impl ArtifactNamer {
    /// A namer whose first name will embed `seed`.
    pub fn new(seed: u64) -> (r: ArtifactNamer)
        ensures
            r.counter == seed,
    {
        ArtifactNamer { counter: seed }
    }

    /// The next artifact name for `a`; the embedded counter advances so
    /// that no later name can collide with this one.
    pub fn next_name(&mut self, a: InjectionAction) -> (name: String)
        requires
            old(self).counter < u64::MAX,
        ensures
            name@ == artifact_name_spec(a, dec_digits(old(self).counter as nat)),
            final(self).counter == old(self).counter + 1,
    {
        let name = build_artifact_name(a, self.counter);
        self.counter = self.counter + 1;
        name
    }
}

/// Distinct counter values give distinct artifact names for the same
/// action: the namer never reuses a filename.
pub proof fn lemma_artifact_names_unique(a: InjectionAction, c1: nat, c2: nat)
    requires
        c1 != c2,
    ensures
        artifact_name_spec(a, dec_digits(c1)) != artifact_name_spec(a, dec_digits(c2)),
{
    let t = token_spec(a);
    let d1 = dec_digits(c1);
    let d2 = dec_digits(c2);
    let n1 = artifact_name_spec(a, d1);
    let n2 = artifact_name_spec(a, d2);
    if n1 == n2 {
        assert(n1.len() == t.len() + 1 + d1.len() + 4);
        assert(n2.len() == t.len() + 1 + d2.len() + 4);
        assert(d1.len() == d2.len());
        assert forall|i: int| 0 <= i < d1.len() implies d1[i] == d2[i] by {
            assert(n1[t.len() + 1 + i] == d1[i]);
            assert(n2[t.len() + 1 + i] == d2[i]);
        }
        assert(d1 =~= d2);
        lemma_dec_digits_injective(c1, c2);
        assert(false);
    }
}

/// The actions that a payload reads out of its own load path: one flag
/// for each token it finds.
#[derive(Clone, Copy, PartialEq, Eq, Structural, Debug)]
pub struct DecodedActions {
    pub hide_capture: bool,
    pub show_capture: bool,
    pub hide_taskbar: bool,
    pub show_taskbar: bool,
}

/// What decoding finds in a lowercased load path: each token, tested as
/// a substring.
pub open spec fn decode_spec(lp: Seq<char>) -> DecodedActions {
    DecodedActions {
        hide_capture: is_substring(token_hide_capture(), lp),
        show_capture: is_substring(token_show_capture(), lp),
        hide_taskbar: is_substring(token_hide_taskbar(), lp),
        show_taskbar: is_substring(token_show_taskbar(), lp),
    }
}

/// The decoding that carries exactly one action.
pub open spec fn decoded_only(a: InjectionAction) -> DecodedActions {
    DecodedActions {
        hide_capture: a is HideCapture,
        show_capture: a is ShowCapture,
        hide_taskbar: a is HideTaskbar,
        show_taskbar: a is ShowTaskbar,
    }
}

/// Derives the requested actions from a load path by testing each action
/// token as a case-insensitive substring, as the payload does on attach.
pub fn decode_actions(path: &str) -> (d: DecodedActions)
    ensures
        d == decode_spec(lower_of(path@)),
{
    let lowered = to_lower(path);
    let lp = lowered.as_str();
    DecodedActions {
        hide_capture: contains_str(lp, action_token(InjectionAction::HideCapture)),
        show_capture: contains_str(lp, action_token(InjectionAction::ShowCapture)),
        hide_taskbar: contains_str(lp, action_token(InjectionAction::HideTaskbar)),
        show_taskbar: contains_str(lp, action_token(InjectionAction::ShowTaskbar)),
    }
}

/// The embedded token occurs in its own artifact name, at position zero.
proof fn lemma_token_at_zero(a: InjectionAction, uniq: Seq<char>)
    ensures
        is_substring(token_spec(a), artifact_name_spec(a, uniq)),
{
    let name = artifact_name_spec(a, uniq);
    let t = token_spec(a);
    let head = t + seq!['_'];
    let body = head + uniq;
    assert(crate::text::matches_at(t, name, 0)) by {
        assert forall|i: int| 0 <= i < t.len() implies name[0 + i] == t[i] by {
            assert(head[i] == t[i]);
            assert(body[i] == head[i]);
            assert(name[i] == body[i]);
        }
    }
}

/// A well-formed artifact name decodes to exactly the action it was
/// built for: the embedded token matches, and no other token can occur
/// anywhere in the name.
pub proof fn lemma_decode_name_exact(a: InjectionAction, uniq: Seq<char>)
    requires
        forall|i: int| 0 <= i < uniq.len() ==> is_dec_digit(#[trigger] uniq[i]),
    ensures
        decode_spec(artifact_name_spec(a, uniq)) == decoded_only(a),
{
    let name = artifact_name_spec(a, uniq);
    lemma_token_at_zero(a, uniq);
    match a {
        InjectionAction::HideCapture => {
            lemma_other_token_absent(a, InjectionAction::ShowCapture, uniq);
            lemma_other_token_absent(a, InjectionAction::HideTaskbar, uniq);
            lemma_other_token_absent(a, InjectionAction::ShowTaskbar, uniq);
        },
        InjectionAction::ShowCapture => {
            lemma_other_token_absent(a, InjectionAction::HideCapture, uniq);
            lemma_other_token_absent(a, InjectionAction::HideTaskbar, uniq);
            lemma_other_token_absent(a, InjectionAction::ShowTaskbar, uniq);
        },
        InjectionAction::HideTaskbar => {
            lemma_other_token_absent(a, InjectionAction::HideCapture, uniq);
            lemma_other_token_absent(a, InjectionAction::ShowCapture, uniq);
            lemma_other_token_absent(a, InjectionAction::ShowTaskbar, uniq);
        },
        InjectionAction::ShowTaskbar => {
            lemma_other_token_absent(a, InjectionAction::HideCapture, uniq);
            lemma_other_token_absent(a, InjectionAction::ShowCapture, uniq);
            lemma_other_token_absent(a, InjectionAction::HideTaskbar, uniq);
        },
    }
}

/// A token other than the embedded one occurs nowhere in an artifact
/// name: it cannot sit inside the embedded token, inside the digit
/// suffix, or inside the extension, and it cannot span the separators.
proof fn lemma_other_token_absent(a: InjectionAction, b: InjectionAction, uniq: Seq<char>)
    requires
        b != a,
        forall|i: int| 0 <= i < uniq.len() ==> is_dec_digit(#[trigger] uniq[i]),
    ensures
        !is_substring(token_spec(b), artifact_name_spec(a, uniq)),
{
    let name = artifact_name_spec(a, uniq);
    let t = token_spec(a);
    let tb = token_spec(b);
    let tail = uniq + dll_ext();
    lemma_token_shape(a);
    lemma_token_shape(b);
    assert(name =~= t + seq!['_'] + tail);
    lemma_substring_split(tb, t, '_', tail);
    lemma_tokens_not_substrings(a, b);
    // the tail is digits, a dot, then a three-character extension
    let dll3 = seq!['d', 'l', 'l'];
    assert(tail =~= uniq + seq!['.'] + dll3);
    lemma_substring_split(tb, uniq, '.', dll3);
    assert(!is_substring(tb, uniq)) by {
        lemma_no_match_by_char(tb, uniq, 0);
    }
    assert(!is_substring(tb, dll3)) by {
        lemma_substring_too_long(tb, dll3);
    }
}

/// Exactness carries over to a full load path whose directory part is
/// free of action tokens: the payload then decodes exactly the action
/// the artifact was built for.
pub proof fn lemma_decode_path_exact(
    a: InjectionAction,
    dir: Seq<char>,
    sep: char,
    uniq: Seq<char>,
)
    requires
        sep == '\\' || sep == '/',
        forall|b: InjectionAction| !is_substring(#[trigger] token_spec(b), dir),
        forall|i: int| 0 <= i < uniq.len() ==> is_dec_digit(#[trigger] uniq[i]),
    ensures
        decode_spec(dir + seq![sep] + artifact_name_spec(a, uniq)) == decoded_only(a),
{
    let name = artifact_name_spec(a, uniq);
    let path = dir + seq![sep] + name;
    lemma_decode_name_exact(a, uniq);
    lemma_path_agrees(InjectionAction::HideCapture, dir, sep, name);
    lemma_path_agrees(InjectionAction::ShowCapture, dir, sep, name);
    lemma_path_agrees(InjectionAction::HideTaskbar, dir, sep, name);
    lemma_path_agrees(InjectionAction::ShowTaskbar, dir, sep, name);
}

/// Whether one token occurs in a full path is decided by the filename
/// part alone, when the directory part is free of that token and ends
/// at a path separator.
proof fn lemma_path_agrees(b: InjectionAction, dir: Seq<char>, sep: char, name: Seq<char>)
    requires
        sep == '\\' || sep == '/',
        !is_substring(token_spec(b), dir),
    ensures
        is_substring(token_spec(b), dir + seq![sep] + name) == is_substring(token_spec(b), name),
{
    lemma_token_shape(b);
    lemma_substring_split(token_spec(b), dir, sep, name);
}

/// The filename shape the artifact convention fixes: some action token
/// followed by an underscore at the front, and the module extension at
/// the back. Files of this shape are eligible for the startup cleanup
/// sweep.
pub open spec fn is_artifact_named(name: Seq<char>) -> bool {
    &&& exists|a: InjectionAction| is_prefix(#[trigger] token_spec(a) + seq!['_'], name)
    &&& is_suffix(dll_ext(), name)
}

/// Whether a filename is eligible for the startup cleanup sweep: it
/// follows the artifact naming convention, an action-token prefix and
/// the module extension.
pub fn is_cleanup_candidate(name: &str) -> (r: bool)
    ensures
        r == is_artifact_named(name@),
{
    let ext = ".dll";
    let p_hide_capture = "mozavcodec_";
    let p_show_capture = "mozavutil_";
    let p_hide_taskbar = "gkcodecs_";
    let p_show_taskbar = "freebl3_";
    proof {
        reveal_strlit(".dll");
        reveal_strlit("mozavcodec_");
        reveal_strlit("mozavutil_");
        reveal_strlit("gkcodecs_");
        reveal_strlit("freebl3_");
        assert(ext@ =~= dll_ext());
        assert(p_hide_capture@ =~= token_spec(InjectionAction::HideCapture) + seq!['_']);
        assert(p_show_capture@ =~= token_spec(InjectionAction::ShowCapture) + seq!['_']);
        assert(p_hide_taskbar@ =~= token_spec(InjectionAction::HideTaskbar) + seq!['_']);
        assert(p_show_taskbar@ =~= token_spec(InjectionAction::ShowTaskbar) + seq!['_']);
    }
    if !ends_with_str(name, ext) {
        return false;
    }
    let r = starts_with_str(name, p_hide_capture) || starts_with_str(name, p_show_capture)
        || starts_with_str(name, p_hide_taskbar) || starts_with_str(name, p_show_taskbar);
    proof {
        if !r && is_artifact_named(name@) {
            let a = choose|a: InjectionAction|
                is_prefix(#[trigger] token_spec(a) + seq!['_'], name@);
            match a {
                InjectionAction::HideCapture => assert(false),
                InjectionAction::ShowCapture => assert(false),
                InjectionAction::HideTaskbar => assert(false),
                InjectionAction::ShowTaskbar => assert(false),
            }
        }
    }
    r
}

/// Every name the namer builds is eligible for the sweep: the files the
/// injector leaves behind are exactly the files the next start removes.
pub proof fn lemma_artifact_names_are_swept(a: InjectionAction, uniq: Seq<char>)
    ensures
        is_artifact_named(artifact_name_spec(a, uniq)),
{
    let name = artifact_name_spec(a, uniq);
    let t = token_spec(a);
    let head = t + seq!['_'];
    let body = head + uniq;
    assert(is_prefix(head, name)) by {
        assert forall|i: int| 0 <= i < head.len() implies name[0 + i] == head[i] by {
            assert(body[i] == head[i]);
            assert(name[i] == body[i]);
        }
    }
    assert(crate::text::matches_at(dll_ext(), name, name.len() - 4)) by {
        assert forall|i: int| 0 <= i < 4 implies name[name.len() - 4 + i] == dll_ext()[i] by {
            assert(name.len() == body.len() + 4);
            assert(name[body.len() + i] == dll_ext()[i]);
        }
    }
}

} // verus!
