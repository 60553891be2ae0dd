//! Loading: the descriptor files of a directory become the list of
//! services. A file at fault is set aside with its error and the load goes
//! on; no two services of the result have the same name.

use vstd::prelude::*;
use crate::errors::{BloomError, Fault};
use crate::parser::{lemma_parsed_is_complete, parse_service_file, parsed};
use crate::service_file::{descriptors, Descriptor, ServiceFile};
use crate::text::{chars_of, same_chars};

verus! {

/// A file of the service directory: its name, and its text or the reason
/// why it could not be read.
pub struct SourceFile {
    pub name: String,
    pub content: Result<String, String>,
}

/// The mathematical content of a [`SourceFile`].
pub struct Source {
    pub name: Seq<char>,
    pub content: Result<Seq<char>, Seq<char>>,
}

impl View for SourceFile {
    type V = Source;

    open spec fn view(&self) -> Source {
        Source {
            name: self.name@,
            content: match self.content {
                Ok(t) => Ok(t@),
                Err(m) => Err(m@),
            },
        }
    }
}

/// A file that was set aside, and why.
pub struct Rejected {
    pub file: String,
    pub error: BloomError,
}

/// What a load gives: the services, how many there are, how many files
/// were set aside, and which. The two numbers count the services and the
/// files set aside.
pub struct Loaded {
    pub services: Vec<ServiceFile>,
    pub loaded: usize,
    pub failed: usize,
    pub rejected: Vec<Rejected>,
}

/// The mathematical content of a [`Loaded`].
pub struct Load {
    pub services: Seq<Descriptor>,
    pub loaded: nat,
    pub failed: nat,
    pub rejected: Seq<(Seq<char>, Fault)>,
}

impl View for Loaded {
    type V = Load;

    open spec fn view(&self) -> Load {
        Load {
            services: descriptors(self.services@),
            loaded: self.loaded as nat,
            failed: self.failed as nat,
            rejected: Seq::new(
                self.rejected@.len(),
                |i: int| (self.rejected@[i].file@, self.rejected@[i].error@),
            ),
        }
    }
}

/// The sources that a vector of files holds.
pub open spec fn sources(files: Seq<SourceFile>) -> Seq<Source> {
    Seq::new(files.len(), |i: int| files[i]@)
}

/// Whether a file name ends in `.vs`.
pub open spec fn is_descriptor_name(name: Seq<char>) -> bool {
    let n = name.len();
    n >= 3 && name[n - 3] == '.' && name[n - 2] == 'v' && name[n - 1] == 's'
}

/// Some descriptor of `have` has the name `name`.
pub open spec fn has_name(have: Seq<Descriptor>, name: Seq<char>) -> bool {
    exists|i: int| 0 <= i < have.len() && (#[trigger] have[i]).name == name
}

/// The first name among `more`, read in order, that `have` or an earlier
/// descriptor of `more` has already.
pub open spec fn clash(have: Seq<Descriptor>, more: Seq<Descriptor>) -> Option<Seq<char>>
    decreases more.len(),
{
    if more.len() == 0 {
        None
    } else if has_name(have, more[0].name) {
        Some(more[0].name)
    } else {
        clash(have.push(more[0]), more.skip(1))
    }
}

/// No two descriptors have the same name.
pub open spec fn distinct_names(s: Seq<Descriptor>) -> bool {
    forall|i: int, j: int| 0 <= i < j < s.len() ==> (#[trigger] s[i]).name != (#[trigger] s[j]).name
}

/// The load with one more file set aside.
pub open spec fn set_aside(acc: Load, file: Seq<char>, fault: Fault) -> Load {
    Load { rejected: acc.rejected.push((file, fault)), failed: acc.failed + 1, ..acc }
}

/// What one more file makes of a load. A file whose name does not end in
/// `.vs` is passed over. A file that could not be read is set aside as an
/// `Io` error, one that cannot be parsed with the parser's error, and one
/// that brings a name that is taken as `AlreadyRegistered`. The descriptors
/// of any other file join the services.
pub open spec fn load_file(acc: Load, file: Source) -> Load {
    if !is_descriptor_name(file.name) {
        acc
    } else {
        match file.content {
            Err(m) => set_aside(acc, file.name, Fault::Io(m)),
            Ok(text) => match parsed(file.name, text) {
                Err(e) => set_aside(acc, file.name, e),
                Ok(ds) => match clash(acc.services, ds) {
                    Some(name) => set_aside(acc, file.name, Fault::AlreadyRegistered(name)),
                    None => Load {
                        services: acc.services + ds,
                        loaded: acc.loaded + ds.len(),
                        ..acc
                    },
                },
            },
        }
    }
}

/// What the files give, read in order.
pub open spec fn loading(files: Seq<Source>) -> Load
    decreases files.len(),
{
    if files.len() == 0 {
        Load { services: Seq::empty(), loaded: 0, failed: 0, rejected: Seq::empty() }
    } else {
        load_file(loading(files.drop_last()), files.last())
    }
}

/// Descriptors that bring no taken name keep the names distinct.
pub proof fn lemma_no_clash_keeps_distinct(have: Seq<Descriptor>, more: Seq<Descriptor>)
    requires
        distinct_names(have),
        clash(have, more) is None,
    ensures
        distinct_names(have + more),
    decreases more.len(),
{
    if more.len() == 0 {
        assert(have + more =~= have);
    } else {
        let grown = have.push(more[0]);
        assert forall|i: int, j: int| 0 <= i < j < grown.len() implies (#[trigger] grown[i]).name
            != (#[trigger] grown[j]).name by {
            if j == have.len() {
                assert(have[i].name != more[0].name);
            }
        }
        lemma_no_clash_keeps_distinct(grown, more.skip(1));
        assert(grown + more.skip(1) =~= have + more);
    }
}

/// Whatever the files hold, no two loaded services have the same name.
pub proof fn lemma_loaded_names_distinct(files: Seq<Source>)
    ensures
        distinct_names(loading(files).services),
    decreases files.len(),
{
    if files.len() > 0 {
        lemma_loaded_names_distinct(files.drop_last());
        let acc = loading(files.drop_last());
        let file = files.last();
        if is_descriptor_name(file.name) {
            match file.content {
                Ok(text) => match parsed(file.name, text) {
                    Ok(ds) => {
                        if clash(acc.services, ds) is None {
                            lemma_no_clash_keeps_distinct(acc.services, ds);
                        }
                    },
                    Err(_) => {},
                },
                Err(_) => {},
            }
        }
    }
}

/// Every loaded service is complete: it has a name and a command, its
/// defaults are filled in, and its priority lies in `0..=100`.
pub proof fn lemma_loaded_are_complete(files: Seq<Source>)
    ensures
        forall|k: int|
            0 <= k < loading(files).services.len() ==> (#[trigger] loading(
                files,
            ).services[k]).complete(),
    decreases files.len(),
{
    if files.len() > 0 {
        lemma_loaded_are_complete(files.drop_last());
        let acc = loading(files.drop_last());
        let file = files.last();
        let out = loading(files);
        match file.content {
            Ok(text) => {
                lemma_parsed_is_complete(file.name, text);
                match parsed(file.name, text) {
                    Ok(ds) => {
                        assert forall|k: int| 0 <= k < out.services.len() implies (
                        #[trigger] out.services[k]).complete() by {
                            if out.services == acc.services + ds {
                                if k < acc.services.len() {
                                    assert(out.services[k] == acc.services[k]);
                                } else {
                                    assert(out.services[k] == ds[k - acc.services.len()]);
                                }
                            }
                        }
                    },
                    Err(_) => {},
                }
            },
            Err(_) => {},
        }
    }
}

/// Whether `name` ends in `.vs`.
pub fn is_descriptor_file(name: &str) -> (r: bool)
    ensures
        r == is_descriptor_name(name@),
{
    let v = chars_of(name);
    let n = v.len();
    n >= 3 && v[n - 3] == '.' && v[n - 2] == 'v' && v[n - 1] == 's'
}

/// `names` holds the names of the descriptors `s`, place by place.
spec fn names_match(names: Seq<Vec<char>>, s: Seq<Descriptor>) -> bool {
    names.len() == s.len() && forall|i: int| 0 <= i < s.len() ==> (#[trigger] names[i])@ == s[i].name
}

/// Whether one of `names` is `name`.
fn is_taken(names: &Vec<Vec<char>>, name: &Vec<char>, Ghost(have): Ghost<Seq<Descriptor>>) -> (r:
    bool)
    requires
        names_match(names@, have),
    ensures
        r == has_name(have, name@),
{
    let mut i: usize = 0;
    while i < names.len()
        invariant
            i <= names.len(),
            names_match(names@, have),
            forall|k: int| 0 <= k < i ==> (#[trigger] have[k]).name != name@,
        decreases names.len() - i,
    {
        if same_chars(&names[i], name) {
            proof {
                assert(have[i as int].name == name@);
            }
            return true;
        }
        i += 1;
    }
    false
}

/// The first name among `more` that is taken, and the names grown by those
/// of `more` when none is.
fn find_clash(names: Vec<Vec<char>>, more: &Vec<ServiceFile>, Ghost(have): Ghost<Seq<Descriptor>>) -> (r:
    Result<Vec<Vec<char>>, String>)
    requires
        names_match(names@, have),
    ensures
        match r {
            Ok(grown) => clash(have, descriptors(more@)) is None && names_match(
                grown@,
                have + descriptors(more@),
            ),
            Err(name) => clash(have, descriptors(more@)) == Some(name@),
        },
{
    let ghost ds = descriptors(more@);
    let mut grown = names;
    let mut i: usize = 0;
    proof {
        assert(ds.skip(0) == ds);
        assert(have + ds.take(0) =~= have);
    }
    while i < more.len()
        invariant
            i <= more.len(),
            ds == descriptors(more@),
            names_match(grown@, have + ds.take(i as int)),
            clash(have, ds) == clash(have + ds.take(i as int), ds.skip(i as int)),
        decreases more.len() - i,
    {
        let ghost so_far = have + ds.take(i as int);
        let name = chars_of(more[i].name.as_str());
        proof {
            assert(ds.skip(i as int)[0] == ds[i as int]);
            assert(ds.skip(i as int).skip(1) == ds.skip(i + 1));
            assert(so_far.push(ds[i as int]) =~= have + ds.take(i + 1));
        }
        if is_taken(&grown, &name, Ghost(so_far)) {
            return Err(more[i].name.clone());
        }
        grown.push(name);
        i += 1;
    }
    proof {
        assert(ds.take(more.len() as int) == ds);
        assert(ds.skip(more.len() as int).len() == 0);
    }
    Ok(grown)
}

/// Loads the services that the files of the service directory describe.
///
/// Files are read in the order given. Files whose names do not end in `.vs`
/// are passed over. A file that could not be read, that does not parse, or
/// that brings a name that an earlier service has, is set aside with its
/// error, and the load goes on. No two services of the result have the
/// same name.
pub fn load_services(files: &Vec<SourceFile>) -> (r: Loaded)
    ensures
        r@ == loading(sources(files@)),
        r.loaded == r.services@.len(),
        r.failed == r.rejected@.len(),
        distinct_names(r@.services),
        forall|k: int| 0 <= k < r@.services.len() ==> (#[trigger] r@.services[k]).complete(),
{
    let ghost all = sources(files@);
    let mut out = Loaded { services: Vec::new(), loaded: 0, failed: 0, rejected: Vec::new() };
    let mut names: Vec<Vec<char>> = Vec::new();
    let mut i: usize = 0;
    proof {
        assert(all.take(0) =~= Seq::<Source>::empty());
        assert(out@.services =~= Seq::<Descriptor>::empty());
        assert(out@.rejected =~= Seq::<(Seq<char>, Fault)>::empty());
    }
    while i < files.len()
        invariant
            i <= files.len(),
            all == sources(files@),
            out@ == loading(all.take(i as int)),
            out.loaded == out.services@.len(),
            out.failed == out.rejected@.len(),
            out.rejected@.len() <= i,
            names_match(names@, out@.services),
        decreases files.len() - i,
    {
        let file = &files[i];
        let ghost acc = out@;
        proof {
            assert(all.take(i + 1).drop_last() == all.take(i as int));
            assert(all.take(i + 1).last() == file@);
        }
        if is_descriptor_file(file.name.as_str()) {
            let outcome: Result<Vec<ServiceFile>, BloomError> = match &file.content {
                Err(m) => Err(BloomError::Io(m.clone())),
                Ok(text) => match parse_service_file(file.name.as_str(), text.as_str()) {
                    Err(e) => Err(e),
                    Ok(more) => match find_clash(names, &more, Ghost(acc.services)) {
                        Err(name) => {
                            names = collect(&out.services);
                            Err(BloomError::AlreadyRegistered(name))
                        },
                        Ok(grown) => {
                            names = grown;
                            Ok(more)
                        },
                    },
                },
            };
            match outcome {
                Err(e) => {
                    out.rejected.push(Rejected { file: file.name.clone(), error: e });
                    out.failed = out.failed + 1;
                    proof {
                        assert(out@.rejected =~= acc.rejected.push((file@.name, e@)));
                        assert(out@.services =~= acc.services);
                    }
                },
                Ok(more) => {
                    let ghost ds = descriptors(more@);
                    let mut more = more;
                    out.services.append(&mut more);
                    out.loaded = out.services.len();
                    proof {
                        assert(out@.services =~= acc.services + ds);
                        assert(out@.rejected =~= acc.rejected);
                    }
                },
            }
        }
        i += 1;
    }
    proof {
        assert(all.take(files.len() as int) == all);
        lemma_loaded_names_distinct(all);
        lemma_loaded_are_complete(all);
    }
    out
}

/// The names of the services, as characters.
fn collect(services: &Vec<ServiceFile>) -> (names: Vec<Vec<char>>)
    ensures
        names_match(names@, descriptors(services@)),
{
    let mut names: Vec<Vec<char>> = Vec::new();
    let mut i: usize = 0;
    while i < services.len()
        invariant
            i <= services.len(),
            names@.len() == i,
            forall|k: int| 0 <= k < i ==> (#[trigger] names@[k])@ == services@[k]@.name,
        decreases services.len() - i,
    {
        names.push(chars_of(services[i].name.as_str()));
        i += 1;
    }
    names
}

} // verus!
