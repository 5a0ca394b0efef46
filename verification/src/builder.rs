//! Building a whole image: load the stub, append every section in order,
//! finish, and hand out the bytes.

use crate::align::aligned;
use crate::append::{
    lemma_append_fields, lemma_append_holds, lemma_append_keeps_sections, lemma_append_layout,
    lemma_append_valid, lemma_holds_kept, lemma_keeps_sections_transitive,
};
use crate::error::Error;
use crate::finish::lemma_finalized;
use crate::image::{joined, UnifiedKernelImage};
use crate::layout::{
    append_failure, checksum_holds, file_alignment, finalize_failure, finalized,
    holds_section, keeps_sections, load_failure, section_count, section_name,
    section_raw_end, section_raw_offset, size_of_initialized_data, valid_stub, variant_of,
    with_section,
};
use vstd::prelude::*;
use vstd::string::*;
use vstd::utf8::encode_utf8;

verus! {

/// A section to append: its name, and the contents of the files that make
/// up its payload, in their order.
#[derive(Debug)]
pub struct SectionSource {
    /// The section's name.
    pub name: String,
    /// The files' contents; the payload is all of them laid end to end.
    pub parts: Vec<Vec<u8>>,
}

impl View for SectionSource {
    type V = (Seq<u8>, Seq<u8>);

    /// The name's bytes and the whole payload.
    open spec fn view(&self) -> (Seq<u8>, Seq<u8>) {
        (encode_utf8(self.name@), joined(self.parts@))
    }
}

/// The names and payloads of `sections`, in their order.
pub open spec fn views(sections: Seq<SectionSource>) -> Seq<(Seq<u8>, Seq<u8>)> {
    Seq::new(sections.len(), |i: int| sections[i]@)
}

/// Why a build failed, and on which section if it was on one.
#[derive(Debug)]
pub struct BuildError {
    /// The failure.
    pub error: Error,
    /// The name of the section that could not be appended; `None` when the
    /// stub was refused or the image could not be finished.
    pub section: Option<String>,
}

/// The image after the first `n` of `sections` were appended to `stub`.
pub open spec fn appended(stub: Seq<u8>, sections: Seq<(Seq<u8>, Seq<u8>)>, n: nat) -> Seq<u8>
    decreases n,
{
    if n == 0 {
        stub
    } else {
        with_section(appended(stub, sections, (n - 1) as nat), sections[n - 1].0, sections[n - 1].1)
    }
}

/// The first of the first `n` sections that cannot be appended, with the reason.
pub open spec fn first_failure(stub: Seq<u8>, sections: Seq<(Seq<u8>, Seq<u8>)>, n: nat) -> Option<
    (int, Error),
>
    decreases n,
{
    if n == 0 {
        None
    } else {
        match first_failure(stub, sections, (n - 1) as nat) {
            Some(failure) => Some(failure),
            None => match append_failure(
                appended(stub, sections, (n - 1) as nat),
                sections[n - 1].0,
                sections[n - 1].1,
            ) {
                Some(e) => Some((n - 1, e)),
                None => None,
            },
        }
    }
}

/// What building from `stub` and `sections` gives: the finished image, or
/// the first failure with the index of the section it came on, if any.
#[verifier::opaque]
pub open spec fn built(stub: Seq<u8>, sections: Seq<(Seq<u8>, Seq<u8>)>) -> Result<
    Seq<u8>,
    (Option<int>, Error),
> {
    match load_failure(stub) {
        Some(e) => Err((None, e)),
        None => match first_failure(stub, sections, sections.len()) {
            Some((i, e)) => Err((Some(i), e)),
            None => {
                let whole = appended(stub, sections, sections.len());
                match finalize_failure(whole) {
                    Some(e) => Err((None, e)),
                    None => Ok(finalized(whole)),
                }
            },
        },
    }
}

/// Whether `outcome` is what building from `stub` and `sections` gives: the
/// same bytes, or the same failure with the name of the same section.
pub open spec fn is_build_outcome(
    stub: Seq<u8>,
    sections: Seq<SectionSource>,
    outcome: Result<Vec<u8>, BuildError>,
) -> bool {
    match (outcome, built(stub, views(sections))) {
        (Ok(bytes), Ok(image)) => bytes@ == image,
        (Err(failure), Err((at, e))) => {
            &&& failure.error == e
            &&& match (failure.section, at) {
                (Some(name), Some(i)) => 0 <= i < sections.len() && name@ == sections[i].name@,
                (None, None) => true,
                _ => false,
            }
        },
        _ => false,
    }
}

/// As long as no section failed, the image stays a valid stub of the same
/// layout, has one section more for each one appended, keeps the stub's
/// sections, and every appended section holds its payload.
pub proof fn lemma_appended(stub: Seq<u8>, sections: Seq<(Seq<u8>, Seq<u8>)>, n: nat)
    requires
        valid_stub(stub),
        n <= sections.len(),
        first_failure(stub, sections, n) is None,
    ensures
        valid_stub(appended(stub, sections, n)),
        variant_of(appended(stub, sections, n)) == variant_of(stub),
        section_count(appended(stub, sections, n)) == section_count(stub) + n,
        keeps_sections(appended(stub, sections, n), stub),
        forall|i: int|
            0 <= i < n ==> #[trigger] holds_section(
                appended(stub, sections, n),
                section_count(stub) + i,
                sections[i].0,
                sections[i].1,
            ),
    decreases n,
{
    if n > 0 {
        let m = (n - 1) as nat;
        lemma_appended(stub, sections, m);
        let before = appended(stub, sections, m);
        let name = sections[n - 1].0;
        let payload = sections[n - 1].1;
        let after = with_section(before, name, payload);
        assert(after == appended(stub, sections, n));
        lemma_append_valid(before, name, payload);
        lemma_append_fields(before, name, payload);
        lemma_append_keeps_sections(before, name, payload);
        lemma_append_holds(before, name, payload);
        lemma_keeps_sections_transitive(after, before, stub);
        assert forall|i: int| 0 <= i < n implies #[trigger] holds_section(
            after,
            section_count(stub) + i,
            sections[i].0,
            sections[i].1,
        ) by {
            if i < m {
                lemma_holds_kept(
                    after,
                    before,
                    section_count(stub) + i,
                    sections[i].0,
                    sections[i].1,
                );
            }
        }
    }
}

/// A failure, once found, stays the first failure however many more
/// sections are looked at.
pub proof fn lemma_first_failure_stays(
    stub: Seq<u8>,
    sections: Seq<(Seq<u8>, Seq<u8>)>,
    n: nat,
    m: nat,
)
    requires
        n <= m,
        first_failure(stub, sections, n) is Some,
    ensures
        first_failure(stub, sections, m) == first_failure(stub, sections, n),
    decreases m,
{
    if n < m {
        lemma_first_failure_stays(stub, sections, n, (m - 1) as nat);
    }
}

/// Looking at one section more: the image grows by that section, and the
/// first failure is the one found so far or, if none was, that section's.
pub proof fn lemma_next_section(stub: Seq<u8>, sections: Seq<(Seq<u8>, Seq<u8>)>, n: nat)
    requires
        n < sections.len(),
    ensures
        appended(stub, sections, n + 1) == with_section(
            appended(stub, sections, n),
            sections[n as int].0,
            sections[n as int].1,
        ),
        first_failure(stub, sections, n) is None ==> first_failure(stub, sections, n + 1) == (
        match append_failure(appended(stub, sections, n), sections[n as int].0, sections[n as int].1) {
            Some(e) => Some((n as int, e)),
            None => None,
        }),
{
    assert((n + 1 - 1) as nat == n);
}

impl SectionSource {
    /// Appends this section to `image`.
    pub fn append_to(&self, image: &mut UnifiedKernelImage) -> (added: Result<(), Error>)
        requires
            old(image).wf(),
        ensures
            final(image).wf(),
            final(image).variant() == old(image).variant(),
            final(image).output_path() == old(image).output_path(),
            match added {
                Ok(()) => {
                    &&& append_failure(old(image)@, self@.0, self@.1) is None
                    &&& final(image)@ == with_section(old(image)@, self@.0, self@.1)
                    &&& !final(image).finished()
                },
                Err(e) => {
                    &&& append_failure(old(image)@, self@.0, self@.1) == Some(e)
                    &&& final(image)@ == old(image)@
                    &&& final(image).finished() == old(image).finished()
                },
            },
    {
        image.add_section_paths(self.name.as_str(), &self.parts)
    }
}

/// Appends `sections` to `image` in their order, up to the first that fails.
///
/// A failure is reported with the name of the section it came on; the
/// sections before that one stay appended.
pub fn append_all(image: &mut UnifiedKernelImage, sections: &Vec<SectionSource>) -> (added: Result<
    (),
    BuildError,
>)
    requires
        old(image).wf(),
    ensures
        final(image).wf(),
        final(image).variant() == old(image).variant(),
        final(image).output_path() == old(image).output_path(),
        match added {
            Ok(()) => {
                &&& first_failure(old(image)@, views(sections@), sections@.len()) is None
                &&& final(image)@ == appended(old(image)@, views(sections@), sections@.len())
            },
            Err(failure) => {
                &&& first_failure(old(image)@, views(sections@), sections@.len()) matches Some(
                    (at, e),
                )
                &&& failure.error == e
                &&& 0 <= at < sections@.len()
                &&& failure.section matches Some(name)
                &&& name@ == sections@[at].name@
                &&& final(image)@ == appended(old(image)@, views(sections@), at as nat)
            },
        },
{
    let ghost start = image@;
    let ghost all = views(sections@);
    let mut i: usize = 0;
    while i < sections.len()
        invariant
            i <= sections@.len(),
            start == old(image)@,
            all == views(sections@),
            image.wf(),
            image.variant() == old(image).variant(),
            image.output_path() == old(image).output_path(),
            image@ == appended(start, all, i as nat),
            first_failure(start, all, i as nat) is None,
        decreases sections@.len() - i,
    {
        let source = &sections[i];
        proof {
            assert(all[i as int] == source@);
            lemma_next_section(start, all, i as nat);
        }
        match source.append_to(image) {
            Ok(()) => {},
            Err(e) => {
                proof {
                    lemma_first_failure_stays(start, all, (i + 1) as nat, all.len());
                }
                return Err(BuildError { error: e, section: Some(source.name.clone()) });
            },
        }
        i = i + 1;
    }
    Ok(())
}

/// A stub that is refused makes the build fail with the reason, on no section.
pub proof fn lemma_built_refused(stub: Seq<u8>, sections: Seq<(Seq<u8>, Seq<u8>)>, e: Error)
    requires
        load_failure(stub) == Some(e),
    ensures
        built(stub, sections) == Err::<Seq<u8>, (Option<int>, Error)>((None, e)),
{
    reveal(built);
}

/// A section that cannot be appended makes the build fail with the reason, on that section.
pub proof fn lemma_built_failed_on(
    stub: Seq<u8>,
    sections: Seq<(Seq<u8>, Seq<u8>)>,
    at: int,
    e: Error,
)
    requires
        load_failure(stub) is None,
        first_failure(stub, sections, sections.len()) == Some((at, e)),
    ensures
        built(stub, sections) == Err::<Seq<u8>, (Option<int>, Error)>((Some(at), e)),
{
    reveal(built);
}

/// When the stub is accepted and every section appended, the build gives
/// what finishing gives: the finished image, or the reason on no section.
pub proof fn lemma_built_finished(stub: Seq<u8>, sections: Seq<(Seq<u8>, Seq<u8>)>)
    requires
        load_failure(stub) is None,
        first_failure(stub, sections, sections.len()) is None,
    ensures
        built(stub, sections) == (match finalize_failure(
            appended(stub, sections, sections.len()),
        ) {
            Some(e) => Err::<Seq<u8>, (Option<int>, Error)>((None, e)),
            None => Ok::<Seq<u8>, (Option<int>, Error)>(
                finalized(appended(stub, sections, sections.len())),
            ),
        }),
{
    reveal(built);
}

/// Builds an image: loads `stub`, appends `sections` in their order, each
/// holding its parts laid end to end, finishes the image and returns its bytes.
///
/// The first failure ends the build. A failure to append is reported with
/// the name of the section it came on.
pub fn build(stub: Vec<u8>, sections: &Vec<SectionSource>) -> (outcome: Result<
    Vec<u8>,
    BuildError,
>)
    ensures
        is_build_outcome(stub@, sections@, outcome),
{
    let ghost start = stub@;
    let ghost all = views(sections@);
    let mut image = match UnifiedKernelImage::new(stub, "") {
        Ok(image) => image,
        Err(e) => {
            proof {
                lemma_built_refused(start, all, e);
            }
            return Err(BuildError { error: e, section: None });
        },
    };
    match append_all(&mut image, sections) {
        Ok(()) => {},
        Err(failure) => {
            proof {
                let (at, e) = first_failure(start, all, all.len())->Some_0;
                lemma_built_failed_on(start, all, at, e);
            }
            return Err(failure);
        },
    }
    proof {
        lemma_built_finished(start, all);
    }
    match image.output() {
        Ok(bytes) => Ok(bytes),
        Err(e) => Err(BuildError { error: e, section: None }),
    }
}

/// The raw sizes of the first `n` payloads added up: each payload's length
/// rounded up to `alignment`.
pub open spec fn total_raw_size(alignment: int, sections: Seq<(Seq<u8>, Seq<u8>)>, n: nat) -> int
    decreases n,
{
    if n == 0 {
        0
    } else {
        total_raw_size(alignment, sections, (n - 1) as nat) + aligned(
            sections[n - 1].1.len() as int,
            alignment,
        )
    }
}

/// Whether the `count` sections of `a` from the `first` on lie behind the
/// first `behind` bytes of the file, one behind the other in their order,
/// and inside the file.
#[verifier::opaque]
pub open spec fn sections_in_order(a: Seq<u8>, behind: int, first: int, count: int) -> bool {
    &&& forall|p: int| first <= p < first + count ==> behind <= #[trigger] section_raw_offset(a, p)
    &&& forall|p: int| first <= p < first + count ==> #[trigger] section_raw_end(a, p) <= a.len()
    &&& forall|p: int, q: int|
        first <= p < q < first + count ==> #[trigger] section_raw_end(a, p)
            <= #[trigger] section_raw_offset(a, q)
}

/// Sections that lie in order still do in an image that keeps them.
pub proof fn lemma_in_order_kept(a: Seq<u8>, b: Seq<u8>, behind: int, first: int, count: int)
    requires
        sections_in_order(b, behind, first, count),
        keeps_sections(a, b),
        0 <= first,
        first + count <= section_count(b),
    ensures
        sections_in_order(a, behind, first, count),
{
    reveal(sections_in_order);
    assert forall|p: int| first <= p < first + count implies section_raw_offset(a, p)
        == section_raw_offset(b, p) && #[trigger] section_raw_end(a, p) == section_raw_end(b, p) by {
        assert(section_name(a, p) == section_name(b, p));
    }
    assert forall|p: int| first <= p < first + count implies behind <= #[trigger] section_raw_offset(
        a,
        p,
    ) by {
        assert(section_raw_end(a, p) == section_raw_end(b, p));
    }
    assert forall|p: int, q: int| first <= p < q < first + count implies #[trigger] section_raw_end(
        a,
        p,
    ) <= #[trigger] section_raw_offset(a, q) by {
        assert(section_raw_end(a, q) == section_raw_end(b, q));
        assert(section_raw_end(b, p) <= section_raw_offset(b, q));
    }
}

/// Sections that lie in order still do with one more behind them that
/// starts at or behind the end of the file as it was and ends inside the new file.
pub proof fn lemma_in_order_one_more(
    a: Seq<u8>,
    b: Seq<u8>,
    behind: int,
    first: int,
    count: int,
)
    requires
        sections_in_order(b, behind, first, count),
        keeps_sections(a, b),
        0 <= first,
        0 <= count,
        first + count == section_count(b),
        behind <= b.len(),
        b.len() <= section_raw_offset(a, first + count),
        section_raw_end(a, first + count) <= a.len(),
    ensures
        sections_in_order(a, behind, first, count + 1),
{
    lemma_in_order_kept(a, b, behind, first, count);
    reveal(sections_in_order);
    let last = first + count;
    assert forall|p: int| first <= p < last implies #[trigger] section_raw_end(a, p) <= b.len() by {
        assert(section_name(a, p) == section_name(b, p));
        assert(section_raw_end(b, p) <= b.len());
    }
    assert forall|p: int, q: int|
        first <= p < q < first + count + 1 implies #[trigger] section_raw_end(a, p)
            <= #[trigger] section_raw_offset(a, q) by {
        if q == last {
            assert(section_raw_end(a, p) <= b.len());
        }
    }
}

/// As long as no section failed, the appended sections lie behind the
/// stub's bytes, one behind the other in the order they were appended, and
/// inside the file; the size of initialized data has grown by their raw sizes.
pub proof fn lemma_appended_layout(stub: Seq<u8>, sections: Seq<(Seq<u8>, Seq<u8>)>, n: nat)
    requires
        valid_stub(stub),
        n <= sections.len(),
        first_failure(stub, sections, n) is None,
    ensures
        stub.len() <= appended(stub, sections, n).len(),
        file_alignment(appended(stub, sections, n)) == file_alignment(stub),
        section_count(appended(stub, sections, n)) == section_count(stub) + n,
        size_of_initialized_data(appended(stub, sections, n)) == size_of_initialized_data(stub)
            + total_raw_size(file_alignment(stub), sections, n),
        sections_in_order(
            appended(stub, sections, n),
            stub.len() as int,
            section_count(stub),
            n as int,
        ),
    decreases n,
{
    if n == 0 {
        reveal(sections_in_order);
    } else {
        let m = (n - 1) as nat;
        lemma_appended_layout(stub, sections, m);
        let before = appended(stub, sections, m);
        let name = sections[n - 1].0;
        let payload = sections[n - 1].1;
        let after = with_section(before, name, payload);
        assert(after == appended(stub, sections, n));
        assert(valid_stub(before)) by {
            lemma_appended(stub, sections, m);
        }
        lemma_append_layout(before, name, payload);
        lemma_append_keeps_sections(before, name, payload);
        assert(0 <= section_count(stub));
        lemma_in_order_one_more(after, before, stub.len() as int, section_count(stub), m as int);
    }
}

/// Every image that was built carries a checksum that holds: computed anew
/// over the image, with the stored checksum taken as zero, it is the stored one.
pub proof fn law_built_checksum_holds(stub: Seq<u8>, sections: Seq<(Seq<u8>, Seq<u8>)>)
    requires
        built(stub, sections) is Ok,
    ensures
        checksum_holds(built(stub, sections)->Ok_0),
{
    reveal(built);
    lemma_appended(stub, sections, sections.len());
    lemma_finalized(appended(stub, sections, sections.len()));
}

/// Every image that was built is a valid image with as many sections as
/// the stub had and the build appended.
pub proof fn law_built_section_count(stub: Seq<u8>, sections: Seq<(Seq<u8>, Seq<u8>)>)
    requires
        built(stub, sections) is Ok,
    ensures
        valid_stub(built(stub, sections)->Ok_0),
        section_count(built(stub, sections)->Ok_0) == section_count(stub) + sections.len(),
{
    reveal(built);
    lemma_appended(stub, sections, sections.len());
    lemma_finalized(appended(stub, sections, sections.len()));
}

/// In every image that was built, each appended section holds its payload:
/// the bytes from its raw offset on are the payload exactly, and the bytes
/// from the payload's end to the end of the raw size are zero. The stub's
/// own sections are kept.
pub proof fn law_built_holds_payloads(stub: Seq<u8>, sections: Seq<(Seq<u8>, Seq<u8>)>, i: int)
    requires
        built(stub, sections) is Ok,
        0 <= i < sections.len(),
    ensures
        holds_section(
            built(stub, sections)->Ok_0,
            section_count(stub) + i,
            sections[i].0,
            sections[i].1,
        ),
        keeps_sections(built(stub, sections)->Ok_0, stub),
{
    reveal(built);
    let whole = appended(stub, sections, sections.len());
    lemma_appended(stub, sections, sections.len());
    lemma_finalized(whole);
    lemma_holds_kept(
        finalized(whole),
        whole,
        section_count(stub) + i,
        sections[i].0,
        sections[i].1,
    );
    lemma_keeps_sections_transitive(finalized(whole), whole, stub);
}

/// In every image that was built, the appended sections lie behind the
/// stub's bytes and one behind the other, in the order they were given:
/// none starts before the one before it ends.
pub proof fn law_built_sections_in_order(
    stub: Seq<u8>,
    sections: Seq<(Seq<u8>, Seq<u8>)>,
    p: int,
    q: int,
)
    requires
        built(stub, sections) is Ok,
        section_count(stub) <= p < q < section_count(stub) + sections.len(),
    ensures
        stub.len() <= section_raw_offset(built(stub, sections)->Ok_0, p),
        section_raw_end(built(stub, sections)->Ok_0, p) <= section_raw_offset(
            built(stub, sections)->Ok_0,
            q,
        ),
        section_raw_end(built(stub, sections)->Ok_0, q) <= (built(stub, sections)->Ok_0).len(),
{
    reveal(built);
    let whole = appended(stub, sections, sections.len());
    assert(valid_stub(whole)) by {
        lemma_appended(stub, sections, sections.len());
    }
    lemma_appended_layout(stub, sections, sections.len());
    lemma_finalized(whole);
    assert(0 <= section_count(stub));
    lemma_in_order_kept(
        finalized(whole),
        whole,
        stub.len() as int,
        section_count(stub),
        sections.len() as int,
    );
    reveal(sections_in_order);
}

/// In every image that was built, the size of initialized data is the
/// stub's plus the raw size of every appended section.
pub proof fn law_built_initialized_data(stub: Seq<u8>, sections: Seq<(Seq<u8>, Seq<u8>)>)
    requires
        built(stub, sections) is Ok,
    ensures
        size_of_initialized_data(built(stub, sections)->Ok_0) == size_of_initialized_data(stub)
            + total_raw_size(file_alignment(stub), sections, sections.len()),
{
    reveal(built);
    let whole = appended(stub, sections, sections.len());
    assert(valid_stub(whole)) by {
        lemma_appended(stub, sections, sections.len());
    }
    lemma_appended_layout(stub, sections, sections.len());
    lemma_finalized(whole);
}

/// Building is deterministic: two outcomes of building from the same stub
/// and the same sections are the same bytes, or the same failure on the
/// same section.
pub proof fn law_build_deterministic(
    stub: Seq<u8>,
    sections: Seq<SectionSource>,
    first: Result<Vec<u8>, BuildError>,
    second: Result<Vec<u8>, BuildError>,
)
    requires
        is_build_outcome(stub, sections, first),
        is_build_outcome(stub, sections, second),
    ensures
        first is Ok <==> second is Ok,
        first is Ok ==> first->Ok_0@ == second->Ok_0@,
        first is Err ==> {
            &&& first->Err_0.error == second->Err_0.error
            &&& first->Err_0.section is Some <==> second->Err_0.section is Some
            &&& first->Err_0.section is Some ==> first->Err_0.section->Some_0@
                == second->Err_0.section->Some_0@
        },
{
}

} // verus!
