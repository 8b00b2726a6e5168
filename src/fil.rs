//! The thread record, its structured form and its interactive controls.
use vstd::prelude::*;
use vstd::string::StringExecFns;
use crate::error::{FilError, FilErrorView, RecordField};
use crate::fields::{pole_color, pole_name, pole_named, status_name, status_named, Pole, Status};
use crate::ident::{find_id, url_id};
use crate::text::{decimal, decimal_string, owned};

verus! {

/// A tracked discussion thread.
#[derive(Debug)]
pub struct Fil {
    name: String,
    lien: String,
    pole: Pole,
    status: Status,
    /// Unix time, in seconds, of the last change.
    last_update: i64,
    id: u64,
    modified: bool,
}

pub struct FilView {
    pub name: Seq<char>,
    pub lien: Seq<char>,
    pub pole: Pole,
    pub status: Status,
    pub last_update: i64,
    pub id: u64,
    pub modified: bool,
}

impl View for Fil {
    type V = FilView;

    closed spec fn view(&self) -> FilView {
        FilView {
            name: self.name@,
            lien: self.lien@,
            pole: self.pole,
            status: self.status,
            last_update: self.last_update,
            id: self.id,
            modified: self.modified,
        }
    }
}

/// The structured form of a thread, field by field; a field that is absent
/// or of the wrong kind is `None`.
#[derive(Clone, Debug)]
pub struct Record {
    pub nom: Option<String>,
    pub lien: Option<String>,
    pub pole: Option<String>,
    pub status: Option<String>,
    pub last_update: Option<i64>,
    pub edited: Option<bool>,
}

pub struct RecordView {
    pub nom: Option<Seq<char>>,
    pub lien: Option<Seq<char>>,
    pub pole: Option<Seq<char>>,
    pub status: Option<Seq<char>>,
    pub last_update: Option<i64>,
    pub edited: Option<bool>,
}

pub open spec fn opt_view(o: Option<String>) -> Option<Seq<char>> {
    match o {
        Some(s) => Some(s@),
        None => None,
    }
}

impl View for Record {
    type V = RecordView;

    open spec fn view(&self) -> RecordView {
        RecordView {
            nom: opt_view(self.nom),
            lien: opt_view(self.lien),
            pole: opt_view(self.pole),
            status: opt_view(self.status),
            last_update: self.last_update,
            edited: self.edited,
        }
    }
}

/// The earliest Unix time, in seconds, that a timestamp can hold
/// (the first second of the year -262144).
pub const MIN_TIMESTAMP: i64 = -8334632937600;

/// The latest Unix time, in seconds, that a timestamp can hold
/// (the last second of the year 262143).
pub const MAX_TIMESTAMP: i64 = 8210298412799;

pub open spec fn valid_timestamp(t: i64) -> bool {
    MIN_TIMESTAMP <= t && t <= MAX_TIMESTAMP
}

/// Whether `t` is a Unix time, in seconds, that a timestamp can hold.
pub fn is_valid_timestamp(t: i64) -> (r: bool)
    ensures
        r == valid_timestamp(t),
{
    MIN_TIMESTAMP <= t && t <= MAX_TIMESTAMP
}

/// A thread is well formed when its identifier is the one its URL carries
/// and its time is a valid timestamp.
pub open spec fn fil_wf(f: FilView) -> bool {
    url_id(f.lien) == Some(f.id) && valid_timestamp(f.last_update)
}

/// The structured form of a thread.
pub open spec fn record_of(f: FilView) -> RecordView {
    RecordView {
        nom: Some(f.name),
        lien: Some(f.lien),
        pole: Some(pole_name(f.pole)),
        status: Some(status_name(f.status)),
        last_update: Some(f.last_update),
        edited: Some(f.modified),
    }
}

/// The thread a structured record describes, or the first field at fault, in
/// the order link, name, status, category, time, identifier.
pub open spec fn fil_of_record(r: RecordView) -> Result<FilView, FilErrorView> {
    if r.lien.is_none() {
        Err(FilErrorView::MissingField(RecordField::Lien))
    } else if r.nom.is_none() {
        Err(FilErrorView::MissingField(RecordField::Nom))
    } else if r.status.is_none() {
        Err(FilErrorView::MissingField(RecordField::Status))
    } else if status_named(r.status.unwrap()).is_none() {
        Err(FilErrorView::UnknownStatus(r.status.unwrap()))
    } else if r.pole.is_none() {
        Err(FilErrorView::MissingField(RecordField::Pole))
    } else if pole_named(r.pole.unwrap()).is_none() {
        Err(FilErrorView::UnknownPole(r.pole.unwrap()))
    } else if r.last_update.is_none() {
        Err(FilErrorView::MissingField(RecordField::LastUpdate))
    } else if !valid_timestamp(r.last_update.unwrap()) {
        Err(FilErrorView::MissingField(RecordField::LastUpdate))
    } else if url_id(r.lien.unwrap()).is_none() {
        Err(FilErrorView::UnresolvableUrl(r.lien.unwrap()))
    } else {
        Ok(
            FilView {
                name: r.nom.unwrap(),
                lien: r.lien.unwrap(),
                pole: pole_named(r.pole.unwrap()).unwrap(),
                status: status_named(r.status.unwrap()).unwrap(),
                last_update: r.last_update.unwrap(),
                id: url_id(r.lien.unwrap()).unwrap(),
                modified: false,
            },
        )
    }
}

/// Reading back the structured form of a well-formed thread gives the same
/// thread, with its dirty flag cleared.
pub proof fn lemma_record_round_trip(f: FilView)
    requires
        fil_wf(f),
    ensures
        fil_of_record(record_of(f)) == Ok::<FilView, FilErrorView>(FilView { modified: false, ..f }),
{
    crate::fields::lemma_pole_name_round_trip(f.pole);
    crate::fields::lemma_status_name_round_trip(f.status);
}

impl Fil {
    /// The time of the last change is always a valid timestamp.
    #[verifier::type_invariant]
    spec fn inv(&self) -> bool {
        valid_timestamp(self.last_update)
    }

    /// A thread with the given fields, last changed at `now`; its identifier
    /// is read from `lien`, and without one there is no thread.
    pub fn new(name: String, lien: String, pole: Pole, status: Status, now: i64) -> (r: Result<
        Fil,
        FilError,
    >)
        requires
            valid_timestamp(now),
        ensures
            match r {
                Ok(f) => url_id(lien@).is_some() && f@ == FilView {
                    name: name@,
                    lien: lien@,
                    pole,
                    status,
                    last_update: now,
                    id: url_id(lien@).unwrap(),
                    modified: false,
                },
                Err(e) => url_id(lien@).is_none() && e@ == FilErrorView::UnresolvableUrl(lien@),
            },
    {
        match find_id(lien.as_str()) {
            Some(id) => Ok(Fil { name, lien, pole, status, last_update: now, id, modified: false }),
            None => Err(FilError::UnresolvableUrl(lien)),
        }
    }

    /// The empty thread that structured records are read into.
    pub fn blank(now: i64) -> (r: Fil)
        requires
            valid_timestamp(now),
        ensures
            r@ == (FilView {
                name: Seq::empty(),
                lien: Seq::empty(),
                pole: Pole::Autre,
                status: Status::Inconnu,
                last_update: now,
                id: 0,
                modified: false,
            }),
    {
        Fil {
            name: String::new(),
            lien: String::new(),
            pole: Pole::Autre,
            status: Status::Inconnu,
            last_update: now,
            id: 0,
            modified: false,
        }
    }

    /// The identifier read from the URL of a thread (see `url_id`).
    pub fn find_id(url: &String) -> (r: Option<u64>)
        ensures
            r == url_id(url@),
    {
        find_id(url.as_str())
    }

    /// Reads a thread from its structured form.
    pub fn from_record(rec: &Record) -> (r: Result<Fil, FilError>)
        ensures
            match r {
                Ok(f) => fil_of_record(rec@) == Ok::<FilView, FilErrorView>(f@),
                Err(e) => fil_of_record(rec@) == Err::<FilView, FilErrorView>(e@),
            },
    {
        let lien = match &rec.lien {
            Some(l) => owned(l.as_str()),
            None => return Err(FilError::MissingField(RecordField::Lien)),
        };
        let name = match &rec.nom {
            Some(n) => owned(n.as_str()),
            None => return Err(FilError::MissingField(RecordField::Nom)),
        };
        let status = match &rec.status {
            Some(s) => match Status::from_name(s.as_str()) {
                Some(t) => t,
                None => return Err(FilError::UnknownStatus(owned(s.as_str()))),
            },
            None => return Err(FilError::MissingField(RecordField::Status)),
        };
        let pole = match &rec.pole {
            Some(p) => match Pole::from_name(p.as_str()) {
                Some(q) => q,
                None => return Err(FilError::UnknownPole(owned(p.as_str()))),
            },
            None => return Err(FilError::MissingField(RecordField::Pole)),
        };
        let last_update = match rec.last_update {
            Some(t) => t,
            None => return Err(FilError::MissingField(RecordField::LastUpdate)),
        };
        if !is_valid_timestamp(last_update) {
            return Err(FilError::MissingField(RecordField::LastUpdate));
        }
        let id = match find_id(lien.as_str()) {
            Some(id) => id,
            None => return Err(FilError::UnresolvableUrl(lien)),
        };
        Ok(Fil { name, lien, pole, status, last_update, id, modified: false })
    }

    /// The structured form of this thread.
    pub fn serialize(&self) -> (r: Record)
        ensures
            r@ == record_of(self@),
    {
        Record {
            nom: Some(owned(self.name.as_str())),
            lien: Some(owned(self.lien.as_str())),
            pole: Some(owned(self.pole.name())),
            status: Some(owned(self.status.name())),
            last_update: Some(self.last_update),
            edited: Some(self.modified),
        }
    }

    /// A copy of this thread.
    pub fn duplicate(&self) -> (r: Fil)
        ensures
            r@ == self@,
    {
        proof {
            use_type_invariant(self);
        }
        Fil {
            name: owned(self.name.as_str()),
            lien: owned(self.lien.as_str()),
            pole: self.pole,
            status: self.status,
            last_update: self.last_update,
            id: self.id,
            modified: self.modified,
        }
    }

    pub fn get_id(&self) -> (r: u64)
        ensures
            r == self@.id,
    {
        self.id
    }

    pub fn get_name(&self) -> (r: &String)
        ensures
            r@ == self@.name,
    {
        &self.name
    }

    pub fn set_name(&mut self, s: String)
        ensures
            final(self)@ == (FilView { name: s@, ..old(self)@ }),
    {
        proof {
            use_type_invariant(&*self);
        }
        self.name = s;
    }

    pub fn get_lien(&self) -> (r: &String)
        ensures
            r@ == self@.lien,
    {
        &self.lien
    }

    pub fn is_modified(&self) -> (r: bool)
        ensures
            r == self@.modified,
    {
        self.modified
    }

    pub fn set_modified(&mut self, modified: bool)
        ensures
            final(self)@ == (FilView { modified, ..old(self)@ }),
    {
        proof {
            use_type_invariant(&*self);
        }
        self.modified = modified;
    }

    /// Records `now` as the time of the last change.
    pub fn up(&mut self, now: i64)
        requires
            valid_timestamp(now),
        ensures
            final(self)@ == (FilView { last_update: now, ..old(self)@ }),
    {
        proof {
            use_type_invariant(&*self);
        }
        self.last_update = now;
    }

    pub fn get_pole(&self) -> (r: Pole)
        ensures
            r == self@.pole,
    {
        self.pole
    }

    pub fn set_pole(&mut self, p: Pole)
        ensures
            final(self)@ == (FilView { pole: p, ..old(self)@ }),
    {
        proof {
            use_type_invariant(&*self);
        }
        self.pole = p;
    }

    pub fn get_status(&self) -> (r: Status)
        ensures
            r == self@.status,
    {
        self.status
    }

    pub fn set_status(&mut self, s: Status)
        ensures
            final(self)@ == (FilView { status: s, ..old(self)@ }),
    {
        proof {
            use_type_invariant(&*self);
        }
        self.status = s;
    }

    pub fn get_date(&self) -> (r: i64)
        ensures
            r == self@.last_update,
            valid_timestamp(r),
    {
        proof {
            use_type_invariant(self);
        }
        self.last_update
    }

    pub fn set_date(&mut self, t: i64)
        requires
            valid_timestamp(t),
        ensures
            final(self)@ == (FilView { last_update: t, ..old(self)@ }),
    {
        proof {
            use_type_invariant(&*self);
        }
        self.last_update = t;
    }
}

/// What a thread's card shows.
#[derive(Clone, Debug)]
pub struct Card {
    pub title: String,
    pub url: String,
    /// Named fields, in order.
    pub fields: Vec<(String, String)>,
    /// The thread identifier, in decimal.
    pub footer: String,
    pub timestamp: i64,
    pub color: i32,
}

/// The text of a thread's entry in a listing.
pub open spec fn list_entry_spec(f: FilView) -> Seq<char> {
    "[**"@ + f.name + "**]("@ + f.lien + ")\n"@ + pole_name(f.pole) + "\n"@ + status_name(f.status)
        + "\n\n"@
}

impl Fil {
    /// The card of this thread: its name, link, category and status, its
    /// identifier, the time of its last change and its category's colour.
    pub fn get_embed(&self) -> (r: Card)
        ensures
            r.title@ == self@.name,
            r.url@ == self@.lien,
            r.fields@.len() == 2,
            r.fields@[0].0@ == "Pôle"@,
            r.fields@[0].1@ == pole_name(self@.pole),
            r.fields@[1].0@ == "Statut"@,
            r.fields@[1].1@ == status_name(self@.status),
            r.footer@ == decimal(self@.id as nat),
            r.timestamp == self@.last_update,
            r.color == pole_color(self@.pole),
    {
        let mut fields: Vec<(String, String)> = Vec::new();
        fields.push((owned("Pôle"), owned(self.pole.name())));
        fields.push((owned("Statut"), owned(self.status.name())));
        Card {
            title: owned(self.name.as_str()),
            url: owned(self.lien.as_str()),
            fields,
            footer: decimal_string(self.id),
            timestamp: self.last_update,
            color: self.pole.get_color(),
        }
    }

    /// The entry of this thread in a listing.
    pub fn get_list_entry(&self) -> (r: String)
        ensures
            r@ == list_entry_spec(self@),
    {
        let mut s = owned("[**");
        s.append(self.name.as_str());
        s.append("**](");
        s.append(self.lien.as_str());
        s.append(")\n");
        s.append(self.pole.name());
        s.append("\n");
        s.append(self.status.name());
        s.append("\n\n");
        s
    }
}

} // verus!
