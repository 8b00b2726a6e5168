//! The two classification fields of a thread: its category and its status.
use vstd::prelude::*;
use crate::fil::{Fil, FilView};
use crate::text::str_eq;

verus! {

/// Organisational category of a thread.
#[derive(Clone, Copy, Debug, PartialEq, Eq, Structural)]
pub enum Pole {
    Disciplinaire,
    Ambassade,
    RetD,
    Technique,
    Evenementiel,
    Creation,
    Traduction,
    Legal,
    Interne,
    Autre,
}

/// Workflow stage of a thread.
#[derive(Clone, Copy, Debug, PartialEq, Eq, Structural)]
pub enum Status {
    Discussion,
    Vote,
    EnDev,
    Termine,
    Inconnu,
}

/// Accent colour of the cards of a category: internal threads stand out.
pub open spec fn pole_color(p: Pole) -> i32 {
    match p {
        Pole::Interne => 0xFF0000,
        _ => 0xFFFFFF,
    }
}

/// Canonical display name of a category.
pub open spec fn pole_name(p: Pole) -> Seq<char> {
    match p {
        Pole::Disciplinaire => "Disciplinaire"@,
        Pole::Ambassade => "Ambassade"@,
        Pole::RetD => "R&D"@,
        Pole::Technique => "Technique"@,
        Pole::Evenementiel => "Évènementiel"@,
        Pole::Creation => "Création"@,
        Pole::Traduction => "Traduction"@,
        Pole::Legal => "Légal"@,
        Pole::Interne => "Interne"@,
        Pole::Autre => "Autre"@,
    }
}

/// Canonical display name of a status.
pub open spec fn status_name(s: Status) -> Seq<char> {
    match s {
        Status::Discussion => "Discussion"@,
        Status::Vote => "Vote"@,
        Status::EnDev => "En développement"@,
        Status::Termine => "Terminé"@,
        Status::Inconnu => "Inconnu"@,
    }
}

/// The category whose canonical name is `s`, if any.
pub open spec fn pole_named(s: Seq<char>) -> Option<Pole> {
    if exists|p: Pole| pole_name(p) == s {
        Some(choose|p: Pole| pole_name(p) == s)
    } else {
        None
    }
}

/// The status whose canonical name is `s`, if any.
pub open spec fn status_named(s: Seq<char>) -> Option<Status> {
    if exists|t: Status| status_name(t) == s {
        Some(choose|t: Status| status_name(t) == s)
    } else {
        None
    }
}

/// No two categories share a name.
pub proof fn lemma_pole_names_distinct(a: Pole, b: Pole)
    ensures
        pole_name(a) == pole_name(b) ==> a == b,
{
    reveal_strlit("Disciplinaire");
    reveal_strlit("Ambassade");
    reveal_strlit("R&D");
    reveal_strlit("Technique");
    reveal_strlit("Évènementiel");
    reveal_strlit("Création");
    reveal_strlit("Traduction");
    reveal_strlit("Légal");
    reveal_strlit("Interne");
    reveal_strlit("Autre");
    if a != b {
        assert(pole_name(a).len() != pole_name(b).len() || pole_name(a)[0] != pole_name(b)[0]);
    }
}

/// No two statuses share a name.
pub proof fn lemma_status_names_distinct(a: Status, b: Status)
    ensures
        status_name(a) == status_name(b) ==> a == b,
{
    reveal_strlit("Discussion");
    reveal_strlit("Vote");
    reveal_strlit("En développement");
    reveal_strlit("Terminé");
    reveal_strlit("Inconnu");
    if a != b {
        assert(status_name(a).len() != status_name(b).len() || status_name(a)[0] != status_name(b)[0]);
    }
}

/// Reading back the name of a category gives the category.
pub proof fn lemma_pole_name_round_trip(p: Pole)
    ensures
        pole_named(pole_name(p)) == Some(p),
{
    let q = choose|q: Pole| pole_name(q) == pole_name(p);
    lemma_pole_names_distinct(p, q);
}

/// Reading back the name of a status gives the status.
pub proof fn lemma_status_name_round_trip(s: Status)
    ensures
        status_named(status_name(s)) == Some(s),
{
    let q = choose|q: Status| status_name(q) == status_name(s);
    lemma_status_names_distinct(s, q);
}

impl Pole {
    /// Accent colour of the cards of this category.
    pub fn get_color(&self) -> (r: i32)
        ensures
            r == pole_color(*self),
    {
        match self {
            Pole::Disciplinaire => 0xFFFFFF,
            Pole::Ambassade => 0xFFFFFF,
            Pole::RetD => 0xFFFFFF,
            Pole::Technique => 0xFFFFFF,
            Pole::Evenementiel => 0xFFFFFF,
            Pole::Creation => 0xFFFFFF,
            Pole::Traduction => 0xFFFFFF,
            Pole::Legal => 0xFFFFFF,
            Pole::Interne => 0xFF0000,
            Pole::Autre => 0xFFFFFF,
        }
    }

    /// Canonical display name.
    pub fn name(&self) -> (r: &'static str)
        ensures
            r@ == pole_name(*self),
    {
        match self {
            Pole::Disciplinaire => "Disciplinaire",
            Pole::Ambassade => "Ambassade",
            Pole::RetD => "R&D",
            Pole::Technique => "Technique",
            Pole::Evenementiel => "Évènementiel",
            Pole::Creation => "Création",
            Pole::Traduction => "Traduction",
            Pole::Legal => "Légal",
            Pole::Interne => "Interne",
            Pole::Autre => "Autre",
        }
    }

    /// Every category, in declaration order.
    pub fn all() -> (r: Vec<Pole>)
        ensures
            forall|p: Pole| r@.contains(p),
    {
        let r = vec![
            Pole::Disciplinaire,
            Pole::Ambassade,
            Pole::RetD,
            Pole::Technique,
            Pole::Evenementiel,
            Pole::Creation,
            Pole::Traduction,
            Pole::Legal,
            Pole::Interne,
            Pole::Autre,
        ];
        assert forall|p: Pole| r@.contains(p) by {
            match p {
                Pole::Disciplinaire => assert(r@[0] == p),
                Pole::Ambassade => assert(r@[1] == p),
                Pole::RetD => assert(r@[2] == p),
                Pole::Technique => assert(r@[3] == p),
                Pole::Evenementiel => assert(r@[4] == p),
                Pole::Creation => assert(r@[5] == p),
                Pole::Traduction => assert(r@[6] == p),
                Pole::Legal => assert(r@[7] == p),
                Pole::Interne => assert(r@[8] == p),
                Pole::Autre => assert(r@[9] == p),
            }
        }
        r
    }

    /// The category whose canonical name is `s`, if any.
    pub fn from_name(s: &str) -> (r: Option<Pole>)
        ensures
            r == pole_named(s@),
    {
        let all = Pole::all();
        let mut i: usize = 0;
        while i < all.len()
            invariant
                i <= all@.len(),
                forall|p: Pole| all@.contains(p),
                forall|k: int| 0 <= k < i ==> pole_name(#[trigger] all@[k]) != s@,
            decreases all@.len() - i,
        {
            let p = all[i];
            if str_eq(p.name(), s) {
                proof {
                    lemma_pole_name_round_trip(p);
                }
                return Some(p);
            }
            i += 1;
        }
        assert(!exists|p: Pole| pole_name(p) == s@) by {
            assert forall|p: Pole| pole_name(p) != s@ by {
                assert(all@.contains(p));
                let k = choose|k: int| 0 <= k < all@.len() && all@[k] == p;
            }
        }
        None
    }
}

impl Status {
    /// Canonical display name.
    pub fn name(&self) -> (r: &'static str)
        ensures
            r@ == status_name(*self),
    {
        match self {
            Status::Discussion => "Discussion",
            Status::Vote => "Vote",
            Status::EnDev => "En développement",
            Status::Termine => "Terminé",
            Status::Inconnu => "Inconnu",
        }
    }

    /// Every status, in declaration order.
    pub fn all() -> (r: Vec<Status>)
        ensures
            forall|s: Status| r@.contains(s),
    {
        let r = vec![Status::Discussion, Status::Vote, Status::EnDev, Status::Termine, Status::Inconnu];
        assert forall|s: Status| r@.contains(s) by {
            match s {
                Status::Discussion => assert(r@[0] == s),
                Status::Vote => assert(r@[1] == s),
                Status::EnDev => assert(r@[2] == s),
                Status::Termine => assert(r@[3] == s),
                Status::Inconnu => assert(r@[4] == s),
            }
        }
        r
    }

    /// The status whose canonical name is `s`, if any.
    pub fn from_name(s: &str) -> (r: Option<Status>)
        ensures
            r == status_named(s@),
    {
        let all = Status::all();
        let mut i: usize = 0;
        while i < all.len()
            invariant
                i <= all@.len(),
                forall|t: Status| all@.contains(t),
                forall|k: int| 0 <= k < i ==> status_name(#[trigger] all@[k]) != s@,
            decreases all@.len() - i,
        {
            let t = all[i];
            if str_eq(t.name(), s) {
                proof {
                    lemma_status_name_round_trip(t);
                }
                return Some(t);
            }
            i += 1;
        }
        assert(!exists|t: Status| status_name(t) == s@) by {
            assert forall|t: Status| status_name(t) != s@ by {
                assert(all@.contains(t));
                let k = choose|k: int| 0 <= k < all@.len() && all@[k] == t;
            }
        }
        None
    }
}

impl Pole {
    /// Whether `obj` has the category asked for, if one is.
    pub fn comply_with(obj: &Fil, field: &Option<Pole>) -> (r: bool)
        ensures
            r == (field is None || field.unwrap() == obj@.pole),
    {
        match field {
            Some(p) => obj.get_pole() == *p,
            None => true,
        }
    }

    /// Gives `obj` the category `field`.
    pub fn set_for(obj: &mut Fil, field: &Pole)
        ensures
            final(obj)@ == (FilView { pole: *field, ..old(obj)@ }),
    {
        obj.set_pole(*field);
    }
}

impl Status {
    /// Whether `obj` has the status asked for, if one is.
    pub fn comply_with(obj: &Fil, field: &Option<Status>) -> (r: bool)
        ensures
            r == (field is None || field.unwrap() == obj@.status),
    {
        match field {
            Some(s) => obj.get_status() == *s,
            None => true,
        }
    }

    /// Gives `obj` the status `field`.
    pub fn set_for(obj: &mut Fil, field: &Status)
        ensures
            final(obj)@ == (FilView { status: *field, ..old(obj)@ }),
    {
        obj.set_status(*field);
    }
}

} // verus!
