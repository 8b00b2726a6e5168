//! Interactive controls of a thread card and the status transitions they
//! request.
//!
//! A control identifier reads `<namespace>-<id>-<action>`, split on `-`.
//! Thread controls have the namespace `f`; the action is `t` (finished), `v`
//! (vote) or `d` (in development). Other namespaces belong to other control
//! families and are ignored.
use vstd::prelude::*;
use vstd::string::StringExecFns;
use crate::error::{FilError, FilErrorView};
use crate::fields::Status;
use crate::fil::{Fil, FilView};
use crate::ident::{all_digits, digit_value, digits_value, is_digit, parse_u64, parsed_u64};
use crate::registry::{has_id, Registry, RegistryView};
use crate::text::{chars_of, decimal, decimal_string, owned, push_char};

verus! {

/// The pieces of `s` between the `-` separators (at least one).
pub open spec fn split_dash(s: Seq<char>) -> Seq<Seq<char>>
    decreases s.len(),
{
    if s.len() == 0 {
        seq![Seq::empty()]
    } else {
        let p = split_dash(s.drop_last());
        if s.last() == '-' {
            p.push(Seq::empty())
        } else {
            p.update(p.len() - 1, p.last().push(s.last()))
        }
    }
}

proof fn lemma_split_dash_nonempty(s: Seq<char>)
    ensures
        split_dash(s).len() >= 1,
    decreases s.len(),
{
    if s.len() > 0 {
        lemma_split_dash_nonempty(s.drop_last());
    }
}

/// The status an action code asks for.
pub open spec fn action_target(code: Seq<char>) -> Option<Status> {
    if code == seq!['t'] {
        Some(Status::Termine)
    } else if code == seq!['v'] {
        Some(Status::Vote)
    } else if code == seq!['d'] {
        Some(Status::EnDev)
    } else {
        None
    }
}

/// The transitions that the controls of a card offer.
pub open spec fn allowed(from: Status, to: Status) -> bool {
    match from {
        Status::Discussion => to == Status::Vote || to == Status::EnDev || to == Status::Termine,
        Status::Vote => to == Status::EnDev || to == Status::Termine,
        Status::EnDev => to == Status::Vote || to == Status::Termine,
        Status::Termine | Status::Inconnu => false,
    }
}

/// What a control identifier asks for.
#[derive(Clone, Copy, Debug, PartialEq, Eq, Structural)]
pub enum ControlEvent {
    /// A control of another family.
    Foreign,
    /// A thread control with an action code that names no status.
    Unknown { id: u64 },
    /// A thread control asking for a status.
    Request { id: u64, target: Status },
}

/// The event a control identifier encodes, or the error for a malformed one;
/// `message` is the message the control belongs to.
pub open spec fn event_of(s: Seq<char>, message: u64) -> Result<ControlEvent, FilErrorView> {
    let p = split_dash(s);
    if p[0] != seq!['f'] {
        Ok(ControlEvent::Foreign)
    } else if p.len() < 2 || parsed_u64(p[1]).is_none() || p.len() < 3 {
        Err(FilErrorView::InteractionId(s, message))
    } else {
        let id = parsed_u64(p[1]).unwrap();
        match action_target(p[2]) {
            Some(t) => Ok(ControlEvent::Request { id, target: t }),
            None => Ok(ControlEvent::Unknown { id }),
        }
    }
}

/// Splits `s` on `-`.
fn split_on_dash(s: &Vec<char>) -> (r: Vec<Vec<char>>)
    ensures
        r@.len() == split_dash(s@).len(),
        forall|k: int| 0 <= k < r@.len() ==> #[trigger] r@[k]@ == split_dash(s@)[k],
{
    let mut parts: Vec<Vec<char>> = Vec::new();
    let mut cur: Vec<char> = Vec::new();
    let mut i: usize = 0;
    while i < s.len()
        invariant
            i <= s@.len(),
            parts@.len() + 1 == split_dash(s@.subrange(0, i as int)).len(),
            forall|k: int|
                0 <= k < parts@.len() ==> #[trigger] parts@[k]@ == split_dash(
                    s@.subrange(0, i as int),
                )[k],
            cur@ == split_dash(s@.subrange(0, i as int)).last(),
        decreases s@.len() - i,
    {
        let ghost pre = s@.subrange(0, i as int);
        let ghost post = s@.subrange(0, i + 1);
        assert(post.drop_last() =~= pre);
        assert(post.last() == s@[i as int]);
        proof {
            lemma_split_dash_nonempty(pre);
        }
        if s[i] == '-' {
            let done = cur;
            parts.push(done);
            cur = Vec::new();
            assert(cur@ =~= Seq::<char>::empty());
        } else {
            cur.push(s[i]);
        }
        i += 1;
    }
    assert(s@.subrange(0, i as int) =~= s@);
    proof {
        lemma_split_dash_nonempty(s@);
    }
    parts.push(cur);
    parts
}

fn is_single(v: &Vec<char>, c: char) -> (r: bool)
    ensures
        r == (v@ == seq![c]),
{
    if v.len() == 1 && v[0] == c {
        assert(v@ =~= seq![c]);
        true
    } else {
        assert(v@.len() != 1 ==> v@ != seq![c]);
        false
    }
}

/// Reads a control identifier.
pub fn parse_control_id(custom_id: &str, message: u64) -> (r: Result<ControlEvent, FilError>)
    ensures
        match r {
            Ok(e) => event_of(custom_id@, message) == Ok::<ControlEvent, FilErrorView>(e),
            Err(e) => event_of(custom_id@, message) == Err::<ControlEvent, FilErrorView>(e@),
        },
{
    let s = chars_of(custom_id);
    let p = split_on_dash(&s);
    proof {
        lemma_split_dash_nonempty(s@);
    }
    if !is_single(&p[0], 'f') {
        return Ok(ControlEvent::Foreign);
    }
    if p.len() < 2 {
        return Err(FilError::InteractionId(owned(custom_id), message));
    }
    let id = match parse_u64(&p[1]) {
        Some(id) => id,
        None => return Err(FilError::InteractionId(owned(custom_id), message)),
    };
    if p.len() < 3 {
        return Err(FilError::InteractionId(owned(custom_id), message));
    }
    if is_single(&p[2], 't') {
        Ok(ControlEvent::Request { id, target: Status::Termine })
    } else if is_single(&p[2], 'v') {
        Ok(ControlEvent::Request { id, target: Status::Vote })
    } else if is_single(&p[2], 'd') {
        Ok(ControlEvent::Request { id, target: Status::EnDev })
    } else {
        Ok(ControlEvent::Unknown { id })
    }
}

pub fn is_allowed(from: Status, to: Status) -> (r: bool)
    ensures
        r == allowed(from, to),
{
    match from {
        Status::Discussion => to == Status::Vote || to == Status::EnDev || to == Status::Termine,
        Status::Vote => to == Status::EnDev || to == Status::Termine,
        Status::EnDev => to == Status::Vote || to == Status::Termine,
        Status::Termine | Status::Inconnu => false,
    }
}

/// What handling a control did.
#[derive(Debug)]
pub enum ControlOutcome {
    /// A control of another family: nothing to do.
    Ignored,
    /// An action code that names no status: nothing changed.
    UnknownAction(u64),
    /// A status that the thread's controls do not offer: nothing changed.
    Refused(u64),
    /// The status changed; `previous` is the thread as it was before.
    Changed { id: u64, previous: Fil },
}

/// The registry after a requested transition of the thread at `k`.
pub open spec fn after_transition(reg: RegistryView, k: int, to: Status) -> RegistryView {
    RegistryView {
        fils: reg.fils.update(k, FilView { status: to, modified: true, ..reg.fils[k] }),
        ..reg
    }
}

/// Handles a pressed control: reads its identifier and, for an offered
/// transition of a thread in the registry, sets its status and marks it
/// changed. Nothing else changes the registry.
pub fn handle_control(reg: &mut Registry, custom_id: &str, message: u64) -> (r: Result<
    ControlOutcome,
    FilError,
>)
    requires
        old(reg).wf(),
    ensures
        final(reg).wf(),
        match event_of(custom_id@, message) {
            Err(e) => r is Err && r->Err_0@ == e && final(reg)@ == old(reg)@,
            Ok(ControlEvent::Foreign) => r is Ok && r->Ok_0 is Ignored && final(reg)@ == old(reg)@,
            Ok(ControlEvent::Unknown { id }) => r is Ok && r->Ok_0 == ControlOutcome::UnknownAction(id)
                && final(reg)@ == old(reg)@,
            Ok(ControlEvent::Request { id, target }) => if !has_id(old(reg)@.fils, id) {
                r is Err && r->Err_0@ == FilErrorView::ObjectNotFound(id) && final(reg)@ == old(reg)@
            } else {
                exists|k: int|
                    0 <= k < old(reg)@.fils.len() && #[trigger] old(reg)@.fils[k].id == id && if allowed(
                        old(reg)@.fils[k].status,
                        target,
                    ) {
                        r is Ok && (r->Ok_0 matches ControlOutcome::Changed { id: i, previous: p } && i == id
                            && p@ == old(reg)@.fils[k]) && final(reg)@ == after_transition(old(reg)@, k, target)
                    } else {
                        r is Ok && r->Ok_0 == ControlOutcome::Refused(id) && final(reg)@ == old(reg)@
                    }
            },
        },
{
    let event = match parse_control_id(custom_id, message) {
        Ok(e) => e,
        Err(e) => return Err(e),
    };
    match event {
        ControlEvent::Foreign => Ok(ControlOutcome::Ignored),
        ControlEvent::Unknown { id } => Ok(ControlOutcome::UnknownAction(id)),
        ControlEvent::Request { id, target } => {
            match reg.position(id) {
                None => Err(FilError::ObjectNotFound(id)),
                Some(k) => {
                    let previous = reg.fil_at(k).duplicate();
                    if is_allowed(previous.get_status(), target) {
                        reg.set_status_at(k, target);
                        Ok(ControlOutcome::Changed { id, previous })
                    } else {
                        Ok(ControlOutcome::Refused(id))
                    }
                },
            }
        },
    }
}

/// How a control is drawn.
#[derive(Clone, Copy, Debug, PartialEq, Eq, Structural)]
pub enum ControlStyle {
    Primary,
    Secondary,
    Success,
    /// A destructive or high-emphasis action.
    Danger,
}

/// An interactive control of a thread card.
#[derive(Clone, Debug)]
pub struct Control {
    pub custom_id: String,
    pub label: String,
    pub style: ControlStyle,
    pub disabled: bool,
}

/// The action code of a control asking for `t`; `0` for the placeholder.
pub open spec fn action_code(t: Option<Status>) -> char {
    match t {
        Some(Status::Termine) => 't',
        Some(Status::Vote) => 'v',
        Some(Status::EnDev) => 'd',
        _ => '0',
    }
}

/// The identifier of the control of thread `id` with action `code`.
pub open spec fn control_id(id: u64, code: char) -> Seq<char> {
    seq!['f', '-'] + decimal(id as nat) + seq!['-', code]
}

pub open spec fn control_label(t: Option<Status>) -> Seq<char> {
    match t {
        Some(Status::Termine) => "Terminé"@,
        Some(Status::Vote) => "Passage au vote"@,
        Some(Status::EnDev) => "Passage en développement"@,
        _ => "Aucune action possible"@,
    }
}

/// The controls a card in status `s` offers: the status each asks for
/// (`None` for the disabled placeholder) and its style.
pub open spec fn offered(s: Status) -> Seq<(Option<Status>, ControlStyle)> {
    match s {
        Status::Discussion => seq![
            (Some(Status::Vote), ControlStyle::Secondary),
            (Some(Status::EnDev), ControlStyle::Secondary),
            (Some(Status::Termine), ControlStyle::Danger),
        ],
        Status::Vote => seq![
            (Some(Status::EnDev), ControlStyle::Secondary),
            (Some(Status::Termine), ControlStyle::Success),
        ],
        Status::EnDev => seq![
            (Some(Status::Vote), ControlStyle::Secondary),
            (Some(Status::Termine), ControlStyle::Danger),
        ],
        Status::Termine | Status::Inconnu => seq![(None, ControlStyle::Primary)],
    }
}

/// The transitions a card offers are exactly the allowed ones.
pub proof fn lemma_offered_iff_allowed(s: Status, t: Status)
    ensures
        allowed(s, t) <==> exists|k: int| 0 <= k < offered(s).len() && #[trigger] offered(s)[k].0 == Some(t),
{
    if allowed(s, t) {
        let k: int = match s {
            Status::Discussion => if t == Status::Vote {
                0
            } else if t == Status::EnDev {
                1
            } else {
                2
            },
            Status::Vote => if t == Status::EnDev {
                0
            } else {
                1
            },
            _ => if t == Status::Vote {
                0
            } else {
                1
            },
        };
        assert(offered(s)[k].0 == Some(t));
    }
}

/// A finished or unknown thread allows no transition: no action code changes
/// its status.
pub proof fn lemma_final_states_are_terminal(s: Status, t: Status)
    requires
        s == Status::Termine || s == Status::Inconnu,
    ensures
        !allowed(s, t),
{
}

fn make_control(id: u64, t: Option<Status>, style: ControlStyle) -> (r: Control)
    ensures
        r.custom_id@ == control_id(id, action_code(t)),
        r.label@ == control_label(t),
        r.style == style,
        r.disabled == t.is_none(),
{
    let (code, label) = match t {
        Some(Status::Termine) => ('t', "Terminé"),
        Some(Status::Vote) => ('v', "Passage au vote"),
        Some(Status::EnDev) => ('d', "Passage en développement"),
        _ => ('0', "Aucune action possible"),
    };
    let mut custom_id = String::new();
    push_char(&mut custom_id, 'f');
    push_char(&mut custom_id, '-');
    let d = decimal_string(id);
    custom_id.append(d.as_str());
    push_char(&mut custom_id, '-');
    push_char(&mut custom_id, code);
    assert(custom_id@ =~= control_id(id, action_code(t)));
    Control { custom_id, label: owned(label), style, disabled: t.is_none() }
}

impl Fil {
    /// The controls of this thread's card, for its present status.
    pub fn get_buttons(&self) -> (r: Vec<Control>)
        ensures
            r@.len() == offered(self@.status).len(),
            forall|k: int|
                0 <= k < r@.len() ==> (#[trigger] r@[k]).custom_id@ == control_id(
                    self@.id,
                    action_code(offered(self@.status)[k].0),
                ) && r@[k].label@ == control_label(offered(self@.status)[k].0) && r@[k].style
                    == offered(self@.status)[k].1 && r@[k].disabled == offered(
                    self@.status,
                )[k].0.is_none(),
    {
        let id = self.get_id();
        let mut r: Vec<Control> = Vec::new();
        match self.get_status() {
            Status::Discussion => {
                r.push(make_control(id, Some(Status::Vote), ControlStyle::Secondary));
                r.push(make_control(id, Some(Status::EnDev), ControlStyle::Secondary));
                r.push(make_control(id, Some(Status::Termine), ControlStyle::Danger));
            },
            Status::Vote => {
                r.push(make_control(id, Some(Status::EnDev), ControlStyle::Secondary));
                r.push(make_control(id, Some(Status::Termine), ControlStyle::Success));
            },
            Status::EnDev => {
                r.push(make_control(id, Some(Status::Vote), ControlStyle::Secondary));
                r.push(make_control(id, Some(Status::Termine), ControlStyle::Danger));
            },
            Status::Termine | Status::Inconnu => {
                r.push(make_control(id, None, ControlStyle::Primary));
            },
        }
        r
    }
}

proof fn lemma_decimal_digits(n: nat)
    ensures
        decimal(n).len() > 0,
        all_digits(decimal(n)),
        digits_value(decimal(n)) == n,
    decreases n,
{
    assert(digit_value(crate::text::digit_char(n % 10)) == n % 10);
    if n < 10 {
        assert(decimal(n) == seq![crate::text::digit_char(n)]);
        assert(decimal(n).drop_last() =~= Seq::<char>::empty());
        assert(digits_value(Seq::<char>::empty()) == 0);
        assert(digits_value(decimal(n)) == digits_value(decimal(n).drop_last()) * 10 + digit_value(decimal(n).last()));
    } else {
        lemma_decimal_digits(n / 10);
        let d = decimal(n);
        assert(d.drop_last() =~= decimal(n / 10));
        assert(d.last() == crate::text::digit_char(n % 10));
        assert(digits_value(d) == digits_value(decimal(n / 10)) * 10 + digit_value(d.last()));
        assert((n / 10) * 10 + n % 10 == n);
        assert forall|k: int| 0 <= k < d.len() implies is_digit(#[trigger] d[k]) by {
            if k < d.len() - 1 {
                assert(d[k] == decimal(n / 10)[k]);
            }
        }
    }
}

proof fn lemma_split_dash_append(a: Seq<char>, b: Seq<char>)
    requires
        forall|k: int| 0 <= k < b.len() ==> b[k] != '-',
    ensures
        split_dash(a + b) == split_dash(a).update(
            split_dash(a).len() - 1,
            split_dash(a).last() + b,
        ),
    decreases b.len(),
{
    lemma_split_dash_nonempty(a);
    if b.len() == 0 {
        assert(a + b =~= a);
        assert(split_dash(a).last() + b =~= split_dash(a).last());
        assert(split_dash(a).update(split_dash(a).len() - 1, split_dash(a).last())
            =~= split_dash(a));
    } else {
        let b0 = b.drop_last();
        lemma_split_dash_append(a, b0);
        assert((a + b).drop_last() =~= a + b0);
        assert((a + b).last() == b.last());
        assert(split_dash(a).last() + b =~= (split_dash(a).last() + b0).push(b.last()));
        assert(split_dash(a + b) =~= split_dash(a).update(
            split_dash(a).len() - 1,
            split_dash(a).last() + b,
        ));
    }
}

/// Every control a card offers for an allowed transition reads back as a
/// request for exactly that transition of that thread.
pub proof fn lemma_offered_control_requests_target(id: u64, t: Status, message: u64)
    requires
        t == Status::Termine || t == Status::Vote || t == Status::EnDev,
    ensures
        event_of(control_id(id, action_code(Some(t))), message) == Ok::<ControlEvent, FilErrorView>(
            ControlEvent::Request { id, target: t },
        ),
{
    let c = action_code(Some(t));
    let d = decimal(id as nat);
    lemma_decimal_digits(id as nat);
    let s0 = seq!['f'];
    let s1 = seq!['f', '-'];
    let s2 = s1 + d;
    let s3 = s2.push('-');
    let s4 = s3.push(c);
    assert(s4 =~= control_id(id, c));
    assert(split_dash(Seq::<char>::empty()) == seq![Seq::<char>::empty()]);
    assert(s0.drop_last() =~= Seq::<char>::empty());
    assert(split_dash(s0) =~= seq![seq!['f']]);
    assert(s1.drop_last() =~= s0);
    assert(split_dash(s1) =~= seq![seq!['f'], Seq::<char>::empty()]);
    assert forall|k: int| 0 <= k < d.len() implies d[k] != '-' by {
        assert(is_digit(d[k]));
    }
    lemma_split_dash_append(s1, d);
    assert(Seq::<char>::empty() + d =~= d);
    assert(split_dash(s2) =~= seq![seq!['f'], d]);
    assert(s3.drop_last() =~= s2);
    assert(split_dash(s3) =~= seq![seq!['f'], d, Seq::<char>::empty()]);
    assert(s4.drop_last() =~= s3);
    assert(split_dash(s4) =~= seq![seq!['f'], d, seq![c]]);
    assert(is_digit(d[0]));
    assert(parsed_u64(d) == Some(id));
    let p = split_dash(control_id(id, c));
    assert(p == seq![seq!['f'], d, seq![c]]);
    assert(p[0] == seq!['f']);
    assert(p[1] == d);
    assert(p[2] == seq![c]);
    let sc = seq![c];
    if t == Status::Termine {
        assert(sc =~= seq!['t']);
    } else {
        assert(sc[0] != seq!['t'][0]);
        if t == Status::Vote {
            assert(sc =~= seq!['v']);
        } else {
            assert(sc[0] != seq!['v'][0]);
            assert(sc =~= seq!['d']);
        }
    }
    assert(action_target(sc) == Some(t));
}

} // verus!
