use vstd::prelude::*;
use vstd::slice::slice_to_vec;

use crate::date::{date_chars, date_included, date_lt, Date};
use crate::message::{parse_message, parse_model, MessageModel, RawAttachment, RawAttachmentModel};
use crate::sanitize::{chars_of, sanitize_spec, sanitize_vec, string_of};

verus! {

/// What can stop a run: the error kinds of the whole pipeline. The
/// mailbox-open, since-parse and write failures arise at the I/O edge;
/// the engine itself reports an unparseable message (a missing or
/// impossible date counts as one) or a missing subject where a filename
/// needs one.
#[derive(Debug, Clone, PartialEq, Eq)]
pub enum ExtractError {
    MailboxOpen(String),
    MessageParse,
    MissingRequiredField,
    DateParse(String),
    Write(String),
}

/// One attachment that qualifies for export, with everything the output
/// filename is built from.
pub struct Attachment {
    pub name: String,
    pub subject: String,
    pub date: Date,
    pub contents: Vec<u8>,
}

pub ghost struct AttachmentModel {
    pub name: Seq<char>,
    pub subject: Seq<char>,
    pub date: Date,
    pub contents: Seq<u8>,
}

impl View for Attachment {
    type V = AttachmentModel;

    open spec fn view(&self) -> AttachmentModel {
        AttachmentModel {
            name: self.name@,
            subject: self.subject@,
            date: self.date,
            contents: self.contents@,
        }
    }
}

impl DeepView for Attachment {
    type V = AttachmentModel;

    open spec fn deep_view(&self) -> AttachmentModel {
        self@
    }
}

impl Attachment {
    pub fn new(name: String, subject: String, date: Date, contents: Vec<u8>) -> (r: Self)
        ensures
            r@ == (AttachmentModel { name: name@, subject: subject@, date, contents: contents@ }),
    {
        Attachment { name, subject, date, contents }
    }
}

/// One file the extract mode will materialize: a sanitized filename and
/// the bytes to put under it.
pub struct PlannedFile {
    pub name: String,
    pub contents: Vec<u8>,
}

pub ghost struct PlannedFileModel {
    pub name: Seq<char>,
    pub contents: Seq<u8>,
}

impl View for PlannedFile {
    type V = PlannedFileModel;

    open spec fn view(&self) -> PlannedFileModel {
        PlannedFileModel { name: self.name@, contents: self.contents@ }
    }
}

impl DeepView for PlannedFile {
    type V = PlannedFileModel;

    open spec fn deep_view(&self) -> PlannedFileModel {
        self@
    }
}

/// The placeholder name for an attachment whose name the parser does not
/// report.
pub open spec fn untitled_name() -> Seq<char> {
    "Untitled"@
}

pub open spec fn effective_name(n: Option<Seq<char>>) -> Seq<char> {
    match n {
        Some(s) => s,
        None => untitled_name(),
    }
}

/// Exact, case-sensitive tail match of one allow-listed suffix.
pub open spec fn suffix_match(name: Seq<char>, sfx: Seq<char>) -> bool {
    sfx.len() <= name.len() && name.skip(name.len() - sfx.len()) == sfx
}

/// An attachment qualifies when its (defaulted) name ends with any
/// suffix of the allow-list.
pub open spec fn name_qualifies(name: Seq<char>, suffixes: Seq<Seq<char>>) -> bool {
    exists|i: int| 0 <= i < suffixes.len() && suffix_match(name, suffixes[i])
}

pub open spec fn export_of(a: RawAttachmentModel, subject: Seq<char>, date: Date) -> AttachmentModel {
    AttachmentModel { name: effective_name(a.name), subject, date, contents: a.contents }
}

/// What one message's attachment list contributes, in order: each
/// qualifying attachment is exported; the first qualifying one already
/// fails the run when the message has no subject.
pub open spec fn attachments_exports(
    atts: Seq<RawAttachmentModel>,
    subject: Option<Seq<char>>,
    date: Date,
    suffixes: Seq<Seq<char>>,
) -> Result<Seq<AttachmentModel>, ExtractError>
    decreases atts.len(),
{
    if atts.len() == 0 {
        Ok(Seq::empty())
    } else if name_qualifies(effective_name(atts[0].name), suffixes) {
        match subject {
            None => Err(ExtractError::MissingRequiredField),
            Some(subj) => match attachments_exports(atts.skip(1), subject, date, suffixes) {
                Ok(rest) => Ok(seq![export_of(atts[0], subj, date)] + rest),
                Err(e) => Err(e),
            },
        }
    } else {
        attachments_exports(atts.skip(1), subject, date, suffixes)
    }
}

/// What one message contributes: nothing when its day lies strictly
/// before the cutoff; an error when its bytes do not parse or its date
/// is absent or impossible.
pub open spec fn message_exports(
    m: Option<MessageModel>,
    since: Option<Date>,
    suffixes: Seq<Seq<char>>,
) -> Result<Seq<AttachmentModel>, ExtractError> {
    match m {
        None => Err(ExtractError::MessageParse),
        Some(mm) => match mm.date {
            None => Err(ExtractError::MessageParse),
            Some(d) => if !d.valid() {
                Err(ExtractError::MessageParse)
            } else if !date_included(d, since) {
                Ok(Seq::empty())
            } else {
                attachments_exports(mm.attachments, mm.subject, d, suffixes)
            },
        },
    }
}

/// What one folder's messages contribute, in the order the store yields
/// them; the first failing message aborts the run.
pub open spec fn messages_exports(
    msgs: Seq<Seq<u8>>,
    since: Option<Date>,
    suffixes: Seq<Seq<char>>,
) -> Result<Seq<AttachmentModel>, ExtractError>
    decreases msgs.len(),
{
    if msgs.len() == 0 {
        Ok(Seq::empty())
    } else {
        match message_exports(parse_model(msgs[0]), since, suffixes) {
            Err(e) => Err(e),
            Ok(h) => match messages_exports(msgs.skip(1), since, suffixes) {
                Err(e) => Err(e),
                Ok(t) => Ok(h + t),
            },
        }
    }
}

/// What a whole mailbox contributes: folders in the order the store
/// yields them, messages within each folder likewise.
pub open spec fn mailbox_exports(
    folders: Seq<Seq<Seq<u8>>>,
    since: Option<Date>,
    suffixes: Seq<Seq<char>>,
) -> Result<Seq<AttachmentModel>, ExtractError>
    decreases folders.len(),
{
    if folders.len() == 0 {
        Ok(Seq::empty())
    } else {
        match messages_exports(folders[0], since, suffixes) {
            Err(e) => Err(e),
            Ok(h) => match mailbox_exports(folders.skip(1), since, suffixes) {
                Err(e) => Err(e),
                Ok(t) => Ok(h + t),
            },
        }
    }
}

pub open spec fn prepend_exports(
    acc: Seq<AttachmentModel>,
    r: Result<Seq<AttachmentModel>, ExtractError>,
) -> Result<Seq<AttachmentModel>, ExtractError> {
    match r {
        Ok(t) => Ok(acc + t),
        Err(e) => Err(e),
    }
}

/// The names of exported attachments, in order.
pub open spec fn attachment_names(s: Seq<AttachmentModel>) -> Seq<Seq<char>> {
    s.map_values(|a: AttachmentModel| a.name)
}

pub open spec fn result_model(r: Result<Vec<Attachment>, ExtractError>) -> Result<
    Seq<AttachmentModel>,
    ExtractError,
> {
    match r {
        Ok(v) => Ok(v.deep_view()),
        Err(e) => Err(e),
    }
}

fn suffix_matches(name: &Vec<char>, sfx: &String) -> (b: bool)
    ensures
        b == suffix_match(name@, sfx@),
{
    let sv = chars_of(sfx.as_str());
    let m = sv.len();
    let n = name.len();
    if m > n {
        return false;
    }
    let mut k: usize = 0;
    while k < m
        invariant
            k <= m <= n,
            sv@ == sfx@,
            n == name@.len(),
            m == sfx@.len(),
            forall|t: int| 0 <= t < k ==> name@[n - m + t] == sfx@[t],
        decreases m - k,
    {
        if *name.get(n - m + k).unwrap() != *sv.get(k).unwrap() {
            proof {
                if suffix_match(name@, sfx@) {
                    assert(name@.skip(n - m) =~= sfx@);
                    assert(name@.skip(n - m)[k as int] == name@[n - m + k]);
                }
            }
            return false;
        }
        k = k + 1;
    }
    proof {
        assert(name@.skip(n - m) =~= sfx@);
    }
    true
}

fn name_qualifies_exec(name: &Vec<char>, suffixes: &Vec<String>) -> (b: bool)
    ensures
        b == name_qualifies(name@, suffixes.deep_view()),
{
    let mut i: usize = 0;
    while i < suffixes.len()
        invariant
            i <= suffixes@.len(),
            forall|t: int| 0 <= t < i ==> !suffix_match(name@, suffixes.deep_view()[t]),
        decreases suffixes@.len() - i,
    {
        if suffix_matches(name, &suffixes[i]) {
            proof {
                assert(suffixes.deep_view()[i as int] == suffixes@[i as int]@);
            }
            return true;
        }
        i = i + 1;
    }
    false
}

fn effective_name_chars(name: &Option<String>) -> (r: Vec<char>)
    ensures
        r@ == effective_name(name.deep_view()),
{
    match name {
        Some(n) => chars_of(n.as_str()),
        None => chars_of("Untitled"),
    }
}

fn export_attachments(
    atts: &Vec<RawAttachment>,
    subject: &Option<String>,
    date: Date,
    suffixes: &Vec<String>,
) -> (r: Result<Vec<Attachment>, ExtractError>)
    ensures
        result_model(r) == attachments_exports(
            atts.deep_view(),
            subject.deep_view(),
            date,
            suffixes.deep_view(),
        ),
        r is Ok ==> forall|t: int|
            0 <= t < r.unwrap().deep_view().len() ==> r.unwrap().deep_view()[t].date == date,
{
    let ghost gatts = atts.deep_view();
    let ghost gsub = subject.deep_view();
    let ghost gsfx = suffixes.deep_view();
    let mut out: Vec<Attachment> = Vec::new();
    let mut i: usize = 0;
    proof {
        assert(out.deep_view() =~= Seq::<AttachmentModel>::empty());
        assert(gatts.skip(0) =~= gatts);
        match attachments_exports(gatts, gsub, date, gsfx) {
            Ok(t) => {
                assert(Seq::<AttachmentModel>::empty() + t =~= t);
            },
            Err(e) => {},
        }
    }
    while i < atts.len()
        invariant
            i <= atts@.len(),
            gatts == atts.deep_view(),
            gsub == subject.deep_view(),
            gsfx == suffixes.deep_view(),
            gatts.len() == atts@.len(),
            attachments_exports(gatts, gsub, date, gsfx) == prepend_exports(
                out.deep_view(),
                attachments_exports(gatts.skip(i as int), gsub, date, gsfx),
            ),
            forall|t: int| 0 <= t < out.deep_view().len() ==> out.deep_view()[t].date == date,
        decreases atts@.len() - i,
    {
        let att = &atts[i];
        let name_chars = effective_name_chars(&att.name);
        proof {
            assert(gatts.skip(i as int)[0] == gatts[i as int]);
            assert(gatts[i as int] == atts@[i as int]@);
            assert(gatts.skip(i as int).skip(1) =~= gatts.skip(i as int + 1));
        }
        if name_qualifies_exec(&name_chars, suffixes) {
            match subject {
                None => {
                    return Err(ExtractError::MissingRequiredField);
                },
                Some(subj) => {
                    let ghost out0 = out.deep_view();
                    let a = Attachment {
                        name: string_of(&name_chars),
                        subject: subj.clone(),
                        date,
                        contents: slice_to_vec(att.contents.as_slice()),
                    };
                    proof {
                        assert(a@ == export_of(gatts[i as int], subj@, date));
                    }
                    out.push(a);
                    proof {
                        assert(out.deep_view() =~= out0.push(
                            export_of(gatts[i as int], subj@, date),
                        ));
                        let rest = attachments_exports(
                            gatts.skip(i as int + 1),
                            gsub,
                            date,
                            gsfx,
                        );
                        match rest {
                            Ok(t) => {
                                assert(out0.push(export_of(gatts[i as int], subj@, date)) + t
                                    =~= out0 + (seq![export_of(gatts[i as int], subj@, date)]
                                    + t));
                            },
                            Err(e) => {},
                        }
                    }
                },
            }
        }
        i = i + 1;
    }
    proof {
        assert(gatts.skip(i as int) =~= Seq::<RawAttachmentModel>::empty());
        assert(out.deep_view() + Seq::<AttachmentModel>::empty() =~= out.deep_view());
    }
    Ok(out)
}

fn export_message(msg: &crate::message::ParsedMessage, since: Option<Date>, suffixes: &Vec<String>) -> (r:
    Result<Vec<Attachment>, ExtractError>)
    ensures
        result_model(r) == message_exports(Some(msg@), since, suffixes.deep_view()),
        r is Ok ==> forall|t: int|
            0 <= t < r.unwrap().deep_view().len() ==> r.unwrap().deep_view()[t].date.valid(),
{
    match msg.date {
        None => Err(ExtractError::MessageParse),
        Some(d) => {
            if !d.is_valid() {
                return Err(ExtractError::MessageParse);
            }
            let included = match since {
                None => true,
                Some(s) => !d.is_before(&s),
            };
            if !included {
                let out: Vec<Attachment> = Vec::new();
                proof {
                    assert(out.deep_view() =~= Seq::<AttachmentModel>::empty());
                }
                return Ok(out);
            }
            export_attachments(&msg.attachments, &msg.subject, d, suffixes)
        },
    }
}

fn export_folder(folder: &Vec<Vec<u8>>, since: Option<Date>, suffixes: &Vec<String>) -> (r: Result<
    Vec<Attachment>,
    ExtractError,
>)
    ensures
        result_model(r) == messages_exports(folder.deep_view(), since, suffixes.deep_view()),
        r is Ok ==> forall|t: int|
            0 <= t < r.unwrap().deep_view().len() ==> r.unwrap().deep_view()[t].date.valid(),
{
    let ghost gmsgs = folder.deep_view();
    let ghost gsfx = suffixes.deep_view();
    let mut out: Vec<Attachment> = Vec::new();
    let mut i: usize = 0;
    proof {
        assert(out.deep_view() =~= Seq::<AttachmentModel>::empty());
        assert(gmsgs.skip(0) =~= gmsgs);
        match messages_exports(gmsgs, since, gsfx) {
            Ok(t) => {
                assert(Seq::<AttachmentModel>::empty() + t =~= t);
            },
            Err(e) => {},
        }
    }
    while i < folder.len()
        invariant
            i <= folder@.len(),
            gmsgs == folder.deep_view(),
            gsfx == suffixes.deep_view(),
            gmsgs.len() == folder@.len(),
            messages_exports(gmsgs, since, gsfx) == prepend_exports(
                out.deep_view(),
                messages_exports(gmsgs.skip(i as int), since, gsfx),
            ),
            forall|t: int| 0 <= t < out.deep_view().len() ==> out.deep_view()[t].date.valid(),
        decreases folder@.len() - i,
    {
        proof {
            assert(gmsgs.skip(i as int)[0] == gmsgs[i as int]);
            assert(gmsgs[i as int] =~= folder@[i as int]@);
            assert(gmsgs.skip(i as int).skip(1) =~= gmsgs.skip(i as int + 1));
        }
        let parsed = parse_message(&folder[i]);
        match parsed {
            None => {
                return Err(ExtractError::MessageParse);
            },
            Some(pm) => {
                match export_message(&pm, since, suffixes) {
                    Err(e) => {
                        return Err(e);
                    },
                    Ok(mut v) => {
                        let ghost out0 = out.deep_view();
                        let ghost vm = v.deep_view();
                        out.append(&mut v);
                        proof {
                            assert(out.deep_view() =~= out0 + vm);
                            match messages_exports(gmsgs.skip(i as int + 1), since, gsfx) {
                                Ok(t) => {
                                    assert((out0 + vm) + t =~= out0 + (vm + t));
                                },
                                Err(e) => {},
                            }
                        }
                    },
                }
            },
        }
        i = i + 1;
    }
    proof {
        assert(gmsgs.skip(i as int) =~= Seq::<Seq<u8>>::empty());
        assert(out.deep_view() + Seq::<AttachmentModel>::empty() =~= out.deep_view());
    }
    Ok(out)
}

/// The default allow-list of attachment suffixes.
pub open spec fn default_suffixes() -> Seq<Seq<char>> {
    seq![".pdf"@, ".doc"@]
}

pub ghost struct ExtractorModel {
    pub maildir: Seq<char>,
    pub output_dir: Option<Seq<char>>,
    pub since: Option<Date>,
    pub suffixes: Seq<Seq<char>>,
}

/// One configured traversal run over a mailbox handed in as raw folder
/// and message bytes.
pub struct Extractor {
    pub maildir: String,
    pub output_dir: Option<String>,
    pub since: Option<Date>,
    pub suffixes: Vec<String>,
}

impl View for Extractor {
    type V = ExtractorModel;

    open spec fn view(&self) -> ExtractorModel {
        ExtractorModel {
            maildir: self.maildir@,
            output_dir: self.output_dir.deep_view(),
            since: self.since,
            suffixes: self.suffixes.deep_view(),
        }
    }
}

impl Extractor {
    /// A run over the given mailbox path, with no date cutoff and the
    /// default suffix allow-list; `output_dir` is kept for the caller
    /// that materializes files.
    pub fn new(maildir: String, output_dir: Option<String>) -> (r: Self)
        ensures
            r@.maildir == maildir@,
            r@.output_dir == output_dir.deep_view(),
            r@.since is None,
            r@.suffixes == default_suffixes(),
    {
        let mut suffixes: Vec<String> = Vec::new();
        suffixes.push(String::from_str(".pdf"));
        suffixes.push(String::from_str(".doc"));
        proof {
            assert(suffixes.deep_view() =~= default_suffixes());
        }
        Extractor { maildir, output_dir, since: None, suffixes }
    }

    /// The same run restricted to messages dated on or after `since`.
    pub fn since(self, since: Date) -> (r: Self)
        ensures
            r@ == (ExtractorModel { since: Some(since), ..self@ }),
    {
        Extractor { since: Some(since), ..self }
    }

    /// The same run with the allow-list replaced; an empty replacement
    /// is ignored so that the allow-list never becomes empty.
    pub fn with_suffixes(self, suffixes: Vec<String>) -> (r: Self)
        ensures
            suffixes.deep_view().len() > 0 ==> r@ == (ExtractorModel {
                suffixes: suffixes.deep_view(),
                ..self@
            }),
            suffixes.deep_view().len() == 0 ==> r@ == self@,
    {
        if suffixes.len() == 0 {
            self
        } else {
            Extractor { suffixes, ..self }
        }
    }

    /// The traversal engine: walks the folders and messages of the
    /// mailbox in the order given, parses each message, filters by the
    /// date cutoff and the suffix allow-list, and returns every
    /// qualifying attachment in traversal order. The first message that
    /// fails to parse, lacks a usable date, or lacks a subject while a
    /// qualifying attachment needs one, aborts the run.
    pub fn collect_attachments(&self, mailbox: &Vec<Vec<Vec<u8>>>) -> (r: Result<
        Vec<Attachment>,
        ExtractError,
    >)
        ensures
            result_model(r) == mailbox_exports(mailbox.deep_view(), self@.since, self@.suffixes),
            r is Ok ==> forall|t: int|
                0 <= t < r.unwrap().deep_view().len() ==> r.unwrap().deep_view()[t].date.valid(),
    {
        let ghost gfolders = mailbox.deep_view();
        let ghost gsfx = self@.suffixes;
        let mut out: Vec<Attachment> = Vec::new();
        let mut i: usize = 0;
        proof {
            assert(out.deep_view() =~= Seq::<AttachmentModel>::empty());
            assert(gfolders.skip(0) =~= gfolders);
            match mailbox_exports(gfolders, self@.since, gsfx) {
                Ok(t) => {
                    assert(Seq::<AttachmentModel>::empty() + t =~= t);
                },
                Err(e) => {},
            }
        }
        while i < mailbox.len()
            invariant
                i <= mailbox@.len(),
                gfolders == mailbox.deep_view(),
                gsfx == self@.suffixes,
                gfolders.len() == mailbox@.len(),
                mailbox_exports(gfolders, self@.since, gsfx) == prepend_exports(
                    out.deep_view(),
                    mailbox_exports(gfolders.skip(i as int), self@.since, gsfx),
                ),
                forall|t: int| 0 <= t < out.deep_view().len() ==> out.deep_view()[t].date.valid(),
            decreases mailbox@.len() - i,
        {
            proof {
                assert(gfolders.skip(i as int)[0] == gfolders[i as int]);
                assert(gfolders[i as int] =~= mailbox@[i as int].deep_view());
                assert(gfolders.skip(i as int).skip(1) =~= gfolders.skip(i as int + 1));
            }
            match export_folder(&mailbox[i], self.since, &self.suffixes) {
                Err(e) => {
                    return Err(e);
                },
                Ok(mut v) => {
                    let ghost out0 = out.deep_view();
                    let ghost vm = v.deep_view();
                    out.append(&mut v);
                    proof {
                        assert(out.deep_view() =~= out0 + vm);
                        match mailbox_exports(gfolders.skip(i as int + 1), self@.since, gsfx) {
                            Ok(t) => {
                                assert((out0 + vm) + t =~= out0 + (vm + t));
                            },
                            Err(e) => {},
                        }
                    }
                },
            }
            i = i + 1;
        }
        proof {
            assert(gfolders.skip(i as int) =~= Seq::<Seq<Seq<u8>>>::empty());
            assert(out.deep_view() + Seq::<AttachmentModel>::empty() =~= out.deep_view());
        }
        Ok(out)
    }

    /// List mode: the names of the qualifying attachments, in traversal
    /// order.
    pub fn list(&self, mailbox: &Vec<Vec<Vec<u8>>>) -> (r: Result<Vec<String>, ExtractError>)
        ensures
            match mailbox_exports(mailbox.deep_view(), self@.since, self@.suffixes) {
                Ok(s) => r is Ok && r.unwrap().deep_view() == attachment_names(s),
                Err(e) => r == Err::<Vec<String>, ExtractError>(e),
            },
    {
        let ghost s = match mailbox_exports(mailbox.deep_view(), self@.since, self@.suffixes) {
            Ok(s) => s,
            Err(e) => Seq::empty(),
        };
        match self.collect_attachments(mailbox) {
            Err(e) => Err(e),
            Ok(v) => {
                let mut names: Vec<String> = Vec::new();
                let mut i: usize = 0;
                proof {
                    assert(names.deep_view() =~= attachment_names(s).take(0));
                }
                while i < v.len()
                    invariant
                        i <= v@.len(),
                        v.deep_view() == s,
                        v.deep_view().len() == v@.len(),
                        names.deep_view() == attachment_names(s).take(i as int),
                    decreases v@.len() - i,
                {
                    let nm = v[i].name.clone();
                    proof {
                        assert(s[i as int] == v@[i as int]@);
                        assert(attachment_names(s).len() == s.len());
                        assert(names.deep_view().len() == names@.len());
                        assert(attachment_names(s).take(i as int).len() == i as int);
                        assert(names@.len() == i as int);
                    }
                    names.push(nm);
                    proof {
                        assert(names.deep_view()[i as int] == s[i as int].name);
                        assert(names.deep_view() =~= attachment_names(s).take(i as int + 1));
                    }
                    i = i + 1;
                }
                proof {
                    assert(attachment_names(s).take(i as int) =~= attachment_names(s));
                }
                Ok(names)
            },
        }
    }
}

/// The deterministic output filename for one exported attachment:
/// `YYYY-MM-DD-<subject>-<name>`, sanitized.
pub open spec fn output_name_chars(a: AttachmentModel) -> Seq<char> {
    sanitize_spec(date_chars(a.date) + seq!['-'] + a.subject + seq!['-'] + a.name)
}

pub open spec fn planned_of(a: AttachmentModel) -> PlannedFileModel {
    PlannedFileModel { name: output_name_chars(a), contents: a.contents }
}

/// The files an export of `s` materializes, in order.
pub open spec fn planned_files(s: Seq<AttachmentModel>) -> Seq<PlannedFileModel> {
    s.map_values(|a: AttachmentModel| planned_of(a))
}

/// Builds the output filename of one exported attachment.
pub fn output_filename(a: &Attachment) -> (r: String)
    requires
        a.date.valid(),
    ensures
        r@ == output_name_chars(a@),
{
    let mut cs: Vec<char> = Vec::new();
    crate::date::push_date_chars(&mut cs, a.date);
    cs.push('-');
    let mut sc = chars_of(a.subject.as_str());
    cs.append(&mut sc);
    cs.push('-');
    let mut nc = chars_of(a.name.as_str());
    cs.append(&mut nc);
    proof {
        assert(cs@ =~= date_chars(a.date) + seq!['-'] + a.subject@ + seq!['-'] + a.name@);
    }
    let sv = sanitize_vec(&cs);
    string_of(&sv)
}

impl Extractor {
    /// Extract mode, up to the I/O edge: the files to materialize, in
    /// traversal order, each under its deterministic sanitized filename.
    /// Writing them (and skipping the ones that already exist) is the
    /// caller's part; since the plan covers the whole mailbox, a failing
    /// message anywhere in it yields an error before anything is written.
    pub fn extract(&self, mailbox: &Vec<Vec<Vec<u8>>>) -> (r: Result<Vec<PlannedFile>, ExtractError>)
        ensures
            match mailbox_exports(mailbox.deep_view(), self@.since, self@.suffixes) {
                Ok(s) => r is Ok && r.unwrap().deep_view() == planned_files(s),
                Err(e) => r == Err::<Vec<PlannedFile>, ExtractError>(e),
            },
    {
        let ghost s = match mailbox_exports(mailbox.deep_view(), self@.since, self@.suffixes) {
            Ok(s) => s,
            Err(e) => Seq::empty(),
        };
        match self.collect_attachments(mailbox) {
            Err(e) => Err(e),
            Ok(v) => {
                let mut plan: Vec<PlannedFile> = Vec::new();
                let mut i: usize = 0;
                proof {
                    assert(plan.deep_view() =~= planned_files(s).take(0));
                }
                while i < v.len()
                    invariant
                        i <= v@.len(),
                        v.deep_view() == s,
                        v.deep_view().len() == v@.len(),
                        forall|t: int|
                            0 <= t < v.deep_view().len() ==> v.deep_view()[t].date.valid(),
                        plan.deep_view() == planned_files(s).take(i as int),
                    decreases v@.len() - i,
                {
                    proof {
                        assert(v@[i as int]@ == s[i as int]);
                    }
                    proof {
                        assert(planned_files(s).len() == s.len());
                        assert(plan.deep_view().len() == plan@.len());
                        assert(planned_files(s).take(i as int).len() == i as int);
                        assert(plan@.len() == i as int);
                    }
                    let name = output_filename(&v[i]);
                    let contents = slice_to_vec(v[i].contents.as_slice());
                    plan.push(PlannedFile { name, contents });
                    proof {
                        assert(plan.deep_view().len() == plan@.len());
                        assert(plan.deep_view()[i as int] == planned_of(s[i as int]));
                        assert(plan.deep_view() =~= planned_files(s).take(i as int + 1));
                    }
                    i = i + 1;
                }
                proof {
                    assert(planned_files(s).take(i as int) =~= planned_files(s));
                }
                Ok(plan)
            },
        }
    }
}

/// Law: every attachment list with a subject exports cleanly.
proof fn lemma_exports_ok_with_subject(
    atts: Seq<RawAttachmentModel>,
    subject: Seq<char>,
    date: Date,
    suffixes: Seq<Seq<char>>,
)
    ensures
        attachments_exports(atts, Some(subject), date, suffixes) is Ok,
    decreases atts.len(),
{
    if atts.len() > 0 {
        lemma_exports_ok_with_subject(atts.skip(1), subject, date, suffixes);
    }
}

/// Law: an attachment whose (defaulted) name ends with an allow-listed
/// suffix is exported whenever its message is, whatever the other
/// attachments of the same message are and however they are judged.
pub proof fn lemma_qualifying_attachment_exported(
    atts: Seq<RawAttachmentModel>,
    subject: Seq<char>,
    date: Date,
    suffixes: Seq<Seq<char>>,
    i: int,
)
    requires
        0 <= i < atts.len(),
        name_qualifies(effective_name(atts[i].name), suffixes),
    ensures
        attachments_exports(atts, Some(subject), date, suffixes) is Ok,
        attachments_exports(atts, Some(subject), date, suffixes)->Ok_0.contains(
            export_of(atts[i], subject, date),
        ),
    decreases atts.len(),
{
    lemma_exports_ok_with_subject(atts, subject, date, suffixes);
    let r = attachments_exports(atts, Some(subject), date, suffixes)->Ok_0;
    if i == 0 {
        assert(r[0] == export_of(atts[0], subject, date));
    } else {
        lemma_qualifying_attachment_exported(atts.skip(1), subject, date, suffixes, i - 1);
        let rest = attachments_exports(atts.skip(1), Some(subject), date, suffixes)->Ok_0;
        assert(atts.skip(1)[i - 1] == atts[i]);
        let j = choose|j: int|
            0 <= j < rest.len() && rest[j] == export_of(atts[i], subject, date);
        if name_qualifies(effective_name(atts[0].name), suffixes) {
            assert(r[j + 1] == export_of(atts[i], subject, date));
        } else {
            assert(r[j] == export_of(atts[i], subject, date));
        }
    }
}

/// Law: within a message that passes the date cutoff and has a subject,
/// an attachment whose (defaulted) name ends with an allow-listed suffix
/// is among the message's exports, even while other attachments of the
/// same message are excluded.
pub proof fn lemma_qualifying_attachment_in_message(
    mm: MessageModel,
    d: Date,
    since: Option<Date>,
    suffixes: Seq<Seq<char>>,
    i: int,
)
    requires
        mm.date == Some(d),
        d.valid(),
        date_included(d, since),
        mm.subject is Some,
        0 <= i < mm.attachments.len(),
        name_qualifies(effective_name(mm.attachments[i].name), suffixes),
    ensures
        message_exports(Some(mm), since, suffixes) is Ok,
        message_exports(Some(mm), since, suffixes)->Ok_0.contains(
            export_of(mm.attachments[i], mm.subject->Some_0, d),
        ),
{
    lemma_qualifying_attachment_exported(mm.attachments, mm.subject->Some_0, d, suffixes, i);
}

/// Law: the `since` cutoff is an inclusive lower bound at day
/// granularity. A message dated exactly on the cutoff day is treated as
/// without any cutoff; a message dated strictly earlier (one day
/// earlier included) contributes nothing and raises no error.
pub proof fn lemma_since_boundary(
    m: MessageModel,
    d: Date,
    cutoff: Date,
    suffixes: Seq<Seq<char>>,
)
    requires
        m.date == Some(d),
        d.valid(),
    ensures
        d == cutoff ==> message_exports(Some(m), Some(cutoff), suffixes) == message_exports(
            Some(m),
            None,
            suffixes,
        ),
        date_lt(d, cutoff) ==> message_exports(Some(m), Some(cutoff), suffixes) == Ok::<
            Seq<AttachmentModel>,
            ExtractError,
        >(Seq::empty()),
{
}

} // verus!
