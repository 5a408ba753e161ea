//! Search results: reading the result listing that a search bot sends, and keeping the results
//! whose sources are online.
use vstd::prelude::*;
use vstd::utf8::{decode_first_scalar, decode_utf8, pop_first_scalar, valid_utf8};

use crate::text::{chars_of, is_space, lemma_has_word, lemma_words_nonempty, split_words, string_of, words};

verus! {

/// `zip::result::ZipError`, the error of reading a zip archive.
#[verifier::external_type_specification]
#[verifier::external_body]
pub struct ExZipError(zip::result::ZipError);

/// Names what the zip crate reads as the contents of the first entry of the zip archive held in
/// `archive`: `None` when it cannot open the archive, find that entry, or read and decompress it.
pub uninterp spec fn zip_first_entry(archive: Seq<u8>) -> Option<Seq<u8>>;

/// Reads the first entry of the zip archive in `archive` with `zip::ZipArchive::new`,
/// `ZipArchive::by_index_decrypt(0, &[])` and `Read::read_to_end` on the entry. The empty
/// password is dropped for an entry that is not encrypted; for an encrypted entry the zip crate
/// tries it, and where it is rejected the answer `Ok(Err(InvalidPassword))` becomes the crate's
/// own "password required" error. (`by_index` would unwrap that answer, and panics on an entry
/// tagged for AES but not marked encrypted.) The contract claims that the outcome is a function
/// of the archive's bytes; what those bytes decompress to is left unsaid.
#[verifier::external_body]
fn read_first_zip_entry(archive: &[u8]) -> (r: Result<Vec<u8>, zip::result::ZipError>)
    ensures
        r is Ok <==> zip_first_entry(archive@) is Some,
        r matches Ok(bytes) ==> bytes@ == zip_first_entry(archive@).unwrap(),
{
    let mut zip = zip::ZipArchive::new(std::io::Cursor::new(archive))?;
    let mut entry = match zip.by_index_decrypt(0, &[])? {
        Ok(entry) => entry,
        Err(_) => {
            return Err(
                zip::result::ZipError::UnsupportedArchive(zip::result::ZipError::PASSWORD_REQUIRED),
            )
        },
    };
    let mut bytes = Vec::new();
    std::io::Read::read_to_end(&mut entry, &mut bytes)?;
    Ok(bytes)
}

/// Decodes `bytes` with `String::from_utf8`, which the documentation describes as failing on
/// bytes that are not UTF-8; the contract states UTF-8 by vstd's definitions.
#[verifier::external_body]
fn string_from_utf8(bytes: &[u8]) -> (r: Option<String>)
    ensures
        r is Some <==> valid_utf8(bytes@),
        r matches Some(s) ==> s@ == decode_utf8(bytes@),
{
    String::from_utf8(bytes.to_vec()).ok()
}

/// One step of reading bytes into lines: the lines completed so far (each with its newline) and
/// the line being read.
pub open spec fn line_step(acc: (Seq<Seq<u8>>, Seq<u8>), x: u8) -> (Seq<Seq<u8>>, Seq<u8>) {
    if x == 10 {
        (acc.0.push(acc.1.push(x)), Seq::empty())
    } else {
        (acc.0, acc.1.push(x))
    }
}

/// The completed lines of `b` and the line still being read at its end.
pub open spec fn line_state(b: Seq<u8>) -> (Seq<Seq<u8>>, Seq<u8>)
    decreases b.len(),
{
    if b.len() == 0 {
        (Seq::empty(), Seq::empty())
    } else {
        line_step(line_state(b.drop_last()), b.last())
    }
}

/// The chunks that `BufRead::read_line` reads from `b`: each up to and with a newline byte, the
/// last one up to the end when `b` does not end with a newline.
pub open spec fn chunks(b: Seq<u8>) -> Seq<Seq<u8>> {
    let st = line_state(b);
    if st.1.len() > 0 {
        st.0.push(st.1)
    } else {
        st.0
    }
}

/// A chunk as `BufRead::lines` hands it out: without its newline, and without a carriage return
/// just before that newline.
pub open spec fn strip_newline(c: Seq<u8>) -> Seq<u8> {
    if c.len() > 0 && c.last() == 10 {
        let t = c.drop_last();
        if t.len() > 0 && t.last() == 13 {
            t.drop_last()
        } else {
            t
        }
    } else {
        c
    }
}

/// The lines of `b`, as `BufRead::lines` reads them.
pub open spec fn lines(b: Seq<u8>) -> Seq<Seq<u8>> {
    chunks(b).map_values(|c: Seq<u8>| strip_newline(c))
}

/// Whether a line is a result: valid UTF-8 (other lines are skipped), not empty, and starting
/// with `!`.
pub open spec fn is_result_line(l: Seq<u8>) -> bool {
    valid_utf8(l) && l.len() > 0 && l[0] == 33
}

/// Whether a line can be tested for `!` by slicing its first byte: it is not valid UTF-8, or it
/// is empty, or it starts with an ASCII char.
pub open spec fn starts_ascii(l: Seq<u8>) -> bool {
    valid_utf8(l) && l.len() > 0 ==> l[0] < 128
}

/// The result lines among `ls`, decoded, in order.
pub open spec fn result_lines(ls: Seq<Seq<u8>>) -> Seq<Seq<char>>
    decreases ls.len(),
{
    if ls.len() == 0 {
        Seq::empty()
    } else if is_result_line(ls.last()) {
        result_lines(ls.drop_last()).push(decode_utf8(ls.last()))
    } else {
        result_lines(ls.drop_last())
    }
}

/// Whether every line of a listing starts with an ASCII char, when it is valid and not empty.
pub open spec fn listing_starts_ascii(b: Seq<u8>) -> bool {
    forall|k: int| 0 <= k < lines(b).len() ==> starts_ascii(#[trigger] lines(b)[k])
}

/// Whether a line can be tested depends only on its first byte: a line that starts with an
/// ASCII byte can, whatever bytes follow it.
pub proof fn lemma_ascii_start_suffices(x: u8, rest: Seq<u8>)
    requires
        x < 128,
    ensures
        starts_ascii(seq![x] + rest),
{
}

/// A listing is accepted whenever each of its lines that is not empty starts with an ASCII
/// byte, whatever bytes follow; and a listing is refused only for a valid line that starts
/// with a byte past ASCII.
pub proof fn lemma_listing_acceptance(b: Seq<u8>)
    ensures
        (forall|k: int| 0 <= k < lines(b).len() && lines(b)[k].len() > 0 ==> #[trigger] lines(b)[k][0] < 128)
            ==> listing_starts_ascii(b),
        !listing_starts_ascii(b) ==> exists|k: int|
            0 <= k < lines(b).len() && valid_utf8(#[trigger] lines(b)[k]) && lines(b)[k].len() > 0
                && lines(b)[k][0] >= 128,
{
    if forall|k: int| 0 <= k < lines(b).len() && lines(b)[k].len() > 0 ==> #[trigger] lines(b)[k][0] < 128 {
        assert forall|k: int| 0 <= k < lines(b).len() implies starts_ascii(#[trigger] lines(b)[k]) by {
            if lines(b)[k].len() > 0 {
                assert(lines(b)[k][0] < 128);
            }
        }
    }
    if !listing_starts_ascii(b) {
        let k = choose|k: int| 0 <= k < lines(b).len() && !starts_ascii(#[trigger] lines(b)[k]);
        assert(valid_utf8(lines(b)[k]) && lines(b)[k].len() > 0 && lines(b)[k][0] >= 128);
    }
}

/// The results of a listing.
pub open spec fn listing_results(b: Seq<u8>) -> Seq<Seq<char>> {
    result_lines(lines(b))
}

/// Splits `b` into the chunks that `BufRead::read_line` reads.
fn split_chunks(b: &[u8]) -> (cs: Vec<Vec<u8>>)
    ensures
        cs.deep_view() == chunks(b@),
{
    let mut done: Vec<Vec<u8>> = Vec::new();
    let mut cur: Vec<u8> = Vec::new();
    let mut i: usize = 0;
    while i < b.len()
        invariant
            i <= b.len(),
            (done.deep_view(), cur@) == line_state(b@.take(i as int)),
        decreases b.len() - i,
    {
        let x: u8 = b[i];
        proof {
            assert(b@.take(i + 1).drop_last() =~= b@.take(i as int));
        }
        let ghost before = done.deep_view();
        cur.push(x);
        if x == 10 {
            let chunk = cur;
            cur = Vec::new();
            done.push(chunk);
            assert(chunk.deep_view() =~= chunk@);
            assert(done.deep_view() =~= before.push(chunk@));
        }
        i += 1;
    }
    assert(b@.take(b@.len() as int) =~= b@);
    if cur.len() > 0 {
        let ghost before = done.deep_view();
        let chunk = cur;
        done.push(chunk);
        assert(chunk.deep_view() =~= chunk@);
        assert(done.deep_view() =~= before.push(chunk@));
    }
    done
}

/// A chunk without its newline, and without a carriage return just before it.
fn strip_line(c: &Vec<u8>) -> (l: Vec<u8>)
    ensures
        l@ == strip_newline(c@),
{
    let mut n: usize = c.len();
    if n > 0 && c[n - 1] == 10 {
        n = n - 1;
        if n > 0 && c[n - 1] == 13 {
            n = n - 1;
        }
    }
    let mut l: Vec<u8> = Vec::new();
    let mut i: usize = 0;
    while i < n
        invariant
            i <= n <= c.len(),
            l@ == c@.take(i as int),
        decreases n - i,
    {
        l.push(c[i]);
        i += 1;
        assert(l@ =~= c@.take(i as int));
    }
    assert(strip_newline(c@) =~= c@.take(n as int));
    l
}

/// The lines of a listing.
fn split_lines(b: &[u8]) -> (ls: Vec<Vec<u8>>)
    ensures
        ls.deep_view() == lines(b@),
{
    let cs = split_chunks(b);
    let mut ls: Vec<Vec<u8>> = Vec::new();
    let mut k: usize = 0;
    while k < cs.len()
        invariant
            k <= cs.len(),
            cs.deep_view() == chunks(b@),
            ls.deep_view() == chunks(b@).take(k as int).map_values(|c: Seq<u8>| strip_newline(c)),
        decreases cs.len() - k,
    {
        let ghost before = ls.deep_view();
        assert(cs.deep_view()[k as int] == cs@[k as int]@);
        let l = strip_line(&cs[k]);
        ls.push(l);
        k += 1;
        assert(l.deep_view() =~= l@);
        assert(ls.deep_view() =~= before.push(l@));
        assert(chunks(b@).take(k as int) =~= chunks(b@).take(k - 1).push(chunks(b@)[k - 1]));
        assert(ls.deep_view() =~= chunks(b@).take(k as int).map_values(
            |c: Seq<u8>| strip_newline(c),
        ));
    }
    assert(chunks(b@).take(cs.len() as int) =~= chunks(b@));
    ls
}

/// Whether every line of a listing that is valid UTF-8 and not empty starts with an ASCII char.
pub fn listing_lines_start_ascii(text: &[u8]) -> (r: bool)
    ensures
        r == listing_starts_ascii(text@),
{
    let ls = split_lines(text);
    let mut k: usize = 0;
    while k < ls.len()
        invariant
            k <= ls.len(),
            ls.deep_view() == lines(text@),
            forall|j: int| 0 <= j < k ==> starts_ascii(#[trigger] lines(text@)[j]),
        decreases ls.len() - k,
    {
        assert(ls.deep_view()[k as int] == ls@[k as int]@);
        let l = &ls[k];
        if l.len() > 0 && l[0] >= 128 {
            if string_from_utf8(l.as_slice()).is_some() {
                assert(!starts_ascii(lines(text@)[k as int]));
                return false;
            }
        }
        k += 1;
    }
    true
}

/// The results of a listing: its lines that are valid UTF-8 and start with `!`, in order.
pub fn results_from_listing(text: &[u8]) -> (results: Vec<String>)
    requires
        listing_starts_ascii(text@),
    ensures
        results.deep_view() == listing_results(text@),
{
    let ls = split_lines(text);
    let mut results: Vec<String> = Vec::new();
    let mut k: usize = 0;
    while k < ls.len()
        invariant
            k <= ls.len(),
            ls.deep_view() == lines(text@),
            results.deep_view() == result_lines(lines(text@).take(k as int)),
        decreases ls.len() - k,
    {
        assert(ls.deep_view()[k as int] == ls@[k as int]@);
        assert(lines(text@).take(k + 1).drop_last() =~= lines(text@).take(k as int));
        let l = &ls[k];
        let ghost before = results.deep_view();
        if l.len() > 0 && l[0] == 33 {
            match string_from_utf8(l.as_slice()) {
                Some(line) => {
                    results.push(line);
                    assert(results.deep_view() =~= before.push(line@));
                },
                None => {},
            }
        }
        k += 1;
    }
    assert(lines(text@).take(ls.len() as int) =~= lines(text@));
    results
}

/// Why a search listing could not be read.
#[derive(Debug)]
pub enum SearchError {
    /// The archive could not be opened, or its first entry not read.
    Archive(zip::result::ZipError),
    /// A line of the listing starts with a char that is not ASCII.
    LineStart,
}

/// Reads the results out of the zip archive that a search bot sends: the lines of its first
/// entry that start with `!`.
pub fn parse_search(zip_file: &[u8]) -> (r: Result<Vec<String>, SearchError>)
    ensures
        r matches Err(SearchError::Archive(_)) <==> zip_first_entry(zip_file@) is None,
        r matches Err(SearchError::LineStart) <==> (zip_first_entry(zip_file@) matches Some(t)
            && !listing_starts_ascii(t)),
        r matches Ok(results) ==> zip_first_entry(zip_file@) matches Some(t)
            && results.deep_view() == listing_results(t),
        r matches Ok(results) ==> forall|k: int|
            0 <= k < results.len() ==> words((#[trigger] results@[k])@).len() > 0,
{
    let text = match read_first_zip_entry(zip_file) {
        Ok(t) => t,
        Err(e) => return Err(SearchError::Archive(e)),
    };
    if !listing_lines_start_ascii(text.as_slice()) {
        return Err(SearchError::LineStart);
    }
    let results = results_from_listing(text.as_slice());
    proof {
        lemma_results_have_words(text@);
        assert forall|k: int| 0 <= k < results.len() implies words(
            (#[trigger] results@[k])@,
        ).len() > 0 by {
            assert(results.deep_view()[k] == results@[k]@);
        }
    }
    Ok(results)
}

/// The nickname that offers a result: the first word of its line without the char (`!`) that
/// starts it.
pub open spec fn source_of(line: Seq<char>) -> Seq<char> {
    words(line)[0].drop_first()
}

/// The results among `results` whose sources are among `users`, in order.
pub open spec fn online_results(results: Seq<Seq<char>>, users: Seq<Seq<char>>) -> Seq<Seq<char>>
    decreases results.len(),
{
    if results.len() == 0 {
        Seq::empty()
    } else if users.contains(source_of(results.last())) {
        online_results(results.drop_last(), users).push(results.last())
    } else {
        online_results(results.drop_last(), users)
    }
}

/// The nickname that offers the result `line`.
pub fn source_name(line: &String) -> (name: String)
    requires
        words(line@).len() > 0,
    ensures
        name@ == source_of(line@),
{
    let cs = chars_of(line.as_str());
    let w = split_words(&cs);
    proof {
        lemma_words_nonempty(line@);
        assert(w.deep_view()[0] == w@[0]@);
    }
    let first = &w[0];
    let mut name_chars: Vec<char> = Vec::new();
    let mut i: usize = 1;
    while i < first.len()
        invariant
            1 <= i <= first.len(),
            name_chars@ == first@.subrange(1, i as int),
        decreases first.len() - i,
    {
        name_chars.push(first[i]);
        i += 1;
        assert(name_chars@ =~= first@.subrange(1, i as int));
    }
    assert(first@.drop_first() =~= first@.subrange(1, first@.len() as int));
    string_of(&name_chars)
}

/// Whether `name` is one of `users`.
fn is_online(name: &String, users: &Vec<String>) -> (r: bool)
    ensures
        r == users.deep_view().contains(name@),
{
    let mut j: usize = 0;
    while j < users.len()
        invariant
            j <= users.len(),
            forall|k: int| 0 <= k < j ==> users.deep_view()[k] != name@,
        decreases users.len() - j,
    {
        assert(users.deep_view()[j as int] == users@[j as int]@);
        if users[j] == *name {
            assert(users.deep_view()[j as int] == name@);
            return true;
        }
        j += 1;
    }
    false
}

/// The results whose sources are online: those offered by one of `users`, in order.
pub fn filter_by_sources(results: &Vec<String>, users: &Vec<String>) -> (kept: Vec<String>)
    requires
        forall|k: int| 0 <= k < results.len() ==> words((#[trigger] results@[k])@).len() > 0,
    ensures
        kept.deep_view() == online_results(results.deep_view(), users.deep_view()),
{
    let mut kept: Vec<String> = Vec::new();
    let mut k: usize = 0;
    while k < results.len()
        invariant
            k <= results.len(),
            forall|j: int| 0 <= j < results.len() ==> words((#[trigger] results@[j])@).len() > 0,
            kept.deep_view() == online_results(
                results.deep_view().take(k as int),
                users.deep_view(),
            ),
        decreases results.len() - k,
    {
        assert(results.deep_view()[k as int] == results@[k as int]@);
        assert(results.deep_view().take(k + 1).drop_last() =~= results.deep_view().take(k as int));
        let ghost before = kept.deep_view();
        let name = source_name(&results[k]);
        if is_online(&name, users) {
            let line = results[k].clone();
            kept.push(line);
            assert(kept.deep_view() =~= before.push(line@));
        }
        k += 1;
    }
    assert(results.deep_view().take(results.len() as int) =~= results.deep_view());
    kept
}

proof fn lemma_decode_starts_with_bang(l: Seq<u8>)
    requires
        is_result_line(l),
    ensures
        decode_utf8(l).len() > 0,
        decode_utf8(l)[0] == '!',
{
    assert((33u8 & 0x7fu8) == 33u8) by (bit_vector);
    assert(decode_first_scalar(l) == 33u32);
    assert(decode_utf8(l) == seq![decode_first_scalar(l) as char] + decode_utf8(pop_first_scalar(l)));
}

proof fn lemma_result_lines_start_with_bang(ls: Seq<Seq<u8>>)
    ensures
        forall|k: int|
            0 <= k < result_lines(ls).len() ==> (#[trigger] result_lines(ls)[k]).len() > 0
                && result_lines(ls)[k][0] == '!',
    decreases ls.len(),
{
    if ls.len() > 0 {
        lemma_result_lines_start_with_bang(ls.drop_last());
        if is_result_line(ls.last()) {
            lemma_decode_starts_with_bang(ls.last());
            let prev = result_lines(ls.drop_last());
            assert forall|k: int| 0 <= k < result_lines(ls).len() implies (
            #[trigger] result_lines(ls)[k]).len() > 0 && result_lines(ls)[k][0] == '!' by {
                if k < prev.len() {
                    assert(result_lines(ls)[k] == prev[k]);
                }
            }
        }
    }
}

/// Every result of a listing is a line that starts with `!`.
pub proof fn lemma_results_start_with_bang(b: Seq<u8>)
    ensures
        forall|k: int|
            0 <= k < listing_results(b).len() ==> (#[trigger] listing_results(b)[k]).len() > 0
                && listing_results(b)[k][0] == '!',
{
    lemma_result_lines_start_with_bang(lines(b));
}

/// Every result of a listing has a word (its first char, `!`, is not whitespace), so the
/// source of every result can be read.
pub proof fn lemma_results_have_words(b: Seq<u8>)
    ensures
        forall|k: int|
            0 <= k < listing_results(b).len() ==> words(#[trigger] listing_results(b)[k]).len()
                > 0,
{
    lemma_results_start_with_bang(b);
    assert forall|k: int| 0 <= k < listing_results(b).len() implies words(
        #[trigger] listing_results(b)[k],
    ).len() > 0 by {
        assert(!is_space(listing_results(b)[k][0]));
        lemma_has_word(listing_results(b)[k], 0);
    }
}

/// Filtering by source keeps exactly the results whose sources are online, in their order: each
/// result kept is one of the results and has an online source, and each result with an online
/// source is kept.
pub proof fn lemma_online_results(results: Seq<Seq<char>>, users: Seq<Seq<char>>)
    ensures
        online_results(results, users).len() <= results.len(),
        forall|k: int|
            0 <= k < online_results(results, users).len() ==> users.contains(
                source_of(#[trigger] online_results(results, users)[k]),
            ) && results.contains(online_results(results, users)[k]),
        forall|j: int|
            0 <= j < results.len() && users.contains(source_of(#[trigger] results[j]))
                ==> online_results(results, users).contains(results[j]),
    decreases results.len(),
{
    if results.len() > 0 {
        let rest = results.drop_last();
        lemma_online_results(rest, users);
        let prev = online_results(rest, users);
        let cur = online_results(results, users);
        assert forall|k: int| 0 <= k < cur.len() implies users.contains(
            source_of(#[trigger] cur[k]),
        ) && results.contains(cur[k]) by {
            if k < prev.len() {
                assert(cur[k] == prev[k]);
                let i = choose|i: int| 0 <= i < rest.len() && rest[i] == prev[k];
                assert(results[i] == rest[i]);
            } else {
                assert(cur[k] == results.last());
                assert(results[results.len() - 1] == results.last());
            }
        }
        assert forall|j: int|
            0 <= j < results.len() && users.contains(source_of(#[trigger] results[j])) implies cur.contains(
            results[j]) by {
            if j < rest.len() {
                assert(rest[j] == results[j]);
                assert(prev.contains(rest[j]));
                let i = choose|i: int| 0 <= i < prev.len() && prev[i] == rest[j];
                if users.contains(source_of(results.last())) {
                    assert(cur[i] == prev[i]);
                } else {
                    assert(cur[i] == prev[i]);
                }
            } else {
                assert(results[j] == results.last());
                assert(cur[cur.len() - 1] == results.last());
            }
        }
    }
}

} // verus!
