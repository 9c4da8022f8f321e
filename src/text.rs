//! Character-level text search and the notification bodies sent to recipients.
use vstd::prelude::*;

verus! {

/// `pattern` starts at position `i` of `text`.
pub open spec fn occurs_at(pattern: Seq<char>, text: Seq<char>, i: int) -> bool {
    &&& 0 <= i
    &&& i + pattern.len() <= text.len()
    &&& text.subrange(i, i + pattern.len()) == pattern
}

/// `pattern` occurs somewhere in `text` as a run of consecutive characters.
pub open spec fn occurs_in(pattern: Seq<char>, text: Seq<char>) -> bool {
    exists|i: int| #[trigger] occurs_at(pattern, text, i)
}

/// The characters of `s`, one per element.
fn chars_of(s: &str) -> (r: Vec<char>)
    ensures
        r@ == s@,
{
    let n = s.unicode_len();
    let mut r: Vec<char> = Vec::new();
    let mut i: usize = 0;
    while i < n
        invariant
            i <= n,
            n == s@.len(),
            r@ == s@.subrange(0, i as int),
        decreases n - i,
    {
        r.push(s.get_char(i));
        i += 1;
    }
    r
}

/// Whether `pattern` stands in `text` at position `i`.
fn matches_at(text: &Vec<char>, pattern: &Vec<char>, i: usize) -> (r: bool)
    requires
        i + pattern.len() <= text.len(),
    ensures
        r == occurs_at(pattern@, text@, i as int),
{
    let mut j: usize = 0;
    while j < pattern.len()
        invariant
            j <= pattern.len(),
            i + pattern.len() <= text.len(),
            forall|k: int| 0 <= k < j ==> text@[i + k] == pattern@[k],
        decreases pattern.len() - j,
    {
        if text[i + j] != pattern[j] {
            assert(text@.subrange(i as int, i + pattern.len())[j as int] != pattern@[j as int]);
            return false;
        }
        j += 1;
    }
    assert(text@.subrange(i as int, i + pattern.len()) =~= pattern@);
    true
}

/// Whether `pattern` occurs in `text`.
pub fn text_contains(text: &str, pattern: &str) -> (r: bool)
    ensures
        r == occurs_in(pattern@, text@),
{
    let t = chars_of(text);
    let p = chars_of(pattern);
    if p.len() > t.len() {
        return false;
    }
    let last = t.len() - p.len();
    let mut i: usize = 0;
    loop
        invariant
            t@ == text@,
            p@ == pattern@,
            last == t.len() - p.len(),
            i <= last,
            forall|k: int| 0 <= k < i ==> !occurs_at(p@, t@, k),
        decreases last - i,
    {
        if matches_at(&t, &p, i) {
            return true;
        }
        if i == last {
            return false;
        }
        i += 1;
    }
}

/// Body of the notification that a target has become unavailable.
pub open spec fn unavailable_text(address: Seq<char>, description: Seq<char>) -> Seq<char> {
    "🔥🔥🔥\nHOST: "@ + address + "\n"@ + description + "\nUNAVAILABLE\n🔥🔥🔥\n"@
}

/// Body that a notification is edited to once its target is available again.
pub open spec fn recovered_text(address: Seq<char>, description: Seq<char>) -> Seq<char> {
    "✅✅✅\nHOST: "@ + address + "\n"@ + description + "\nAVAILABLE\n✅✅✅\n"@
}

/// Body of the immediate notice that probing a target could not be carried out.
pub open spec fn probe_error_text(address: Seq<char>, error: Seq<char>) -> Seq<char> {
    "error request to addr: "@ + address + ", error: "@ + error
}

/// Builds the notification that `address` (`description`) is unavailable.
pub fn unavailable_body(address: &str, description: &str) -> (r: String)
    ensures
        r@ == unavailable_text(address@, description@),
{
    let mut body = String::from_str("🔥🔥🔥\nHOST: ");
    body.append(address);
    body.append("\n");
    body.append(description);
    body.append("\nUNAVAILABLE\n🔥🔥🔥\n");
    body
}

/// Builds the text an alert about `address` (`description`) is edited to on recovery.
pub fn recovered_body(address: &str, description: &str) -> (r: String)
    ensures
        r@ == recovered_text(address@, description@),
{
    let mut body = String::from_str("✅✅✅\nHOST: ");
    body.append(address);
    body.append("\n");
    body.append(description);
    body.append("\nAVAILABLE\n✅✅✅\n");
    body
}

/// Builds the notice that probing `address` failed to run, with the error's text.
pub fn probe_error_body(address: &str, error: &str) -> (r: String)
    ensures
        r@ == probe_error_text(address@, error@),
{
    let mut body = String::from_str("error request to addr: ");
    body.append(address);
    body.append(", error: ");
    body.append(error);
    body
}

/// A body of the form `prefix + x + rest` names `x`.
proof fn lemma_occurs_after_prefix(prefix: Seq<char>, x: Seq<char>, rest: Seq<char>)
    ensures
        occurs_in(x, prefix + x + rest),
{
    let whole = prefix + x + rest;
    assert(whole.subrange(prefix.len() as int, (prefix.len() + x.len()) as int) =~= x);
    assert(occurs_at(x, whole, prefix.len() as int));
}

/// The unavailability notice names its target's address, and the recovery
/// text names both the address and the description.
pub proof fn lemma_bodies_name_target(address: Seq<char>, description: Seq<char>)
    ensures
        occurs_in(address, unavailable_text(address, description)),
        occurs_in(address, recovered_text(address, description)),
        occurs_in(description, recovered_text(address, description)),
{
    let down_head = "🔥🔥🔥\nHOST: "@;
    let down_tail = "\n"@ + description + "\nUNAVAILABLE\n🔥🔥🔥\n"@;
    assert(unavailable_text(address, description) =~= down_head + address + down_tail);
    lemma_occurs_after_prefix(down_head, address, down_tail);
    let up_head = "✅✅✅\nHOST: "@;
    let up_tail = "\n"@ + description + "\nAVAILABLE\n✅✅✅\n"@;
    assert(recovered_text(address, description) =~= up_head + address + up_tail);
    lemma_occurs_after_prefix(up_head, address, up_tail);
    lemma_occurs_after_prefix(
        up_head + address + "\n"@,
        description,
        "\nAVAILABLE\n✅✅✅\n"@,
    );
}

} // verus!
