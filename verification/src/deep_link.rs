//! Deep links: URLs of the application's own scheme among launch arguments.

use vstd::prelude::*;
use vstd::string::*;

verus! {

/// The URL scheme that the operating system associates with the application.
pub const SCHEME: &'static str = "mentem";

/// What a launch argument begins with when it is a deep link.
pub const LINK_PREFIX: &'static str = "mentem://";

/// The characters of [`LINK_PREFIX`].
pub open spec fn link_prefix() -> Seq<char> {
    "mentem://"@
}

/// A string is a deep link when it begins with the scheme and `://`.
/// Nothing else of it is looked at.
pub open spec fn is_link(arg: Seq<char>) -> bool {
    link_prefix().is_prefix_of(arg)
}

/// The deep links among `args`: every argument that is one, as often as it
/// occurs and in the order of `args`.
pub open spec fn links_in(args: Seq<String>) -> Seq<String> {
    args.filter(|arg: String| is_link(arg@))
}

/// The prefix is the scheme followed by `://`, nine characters in all, and
/// the two constants hold the scheme and the prefix.
pub proof fn lemma_link_prefix()
    ensures
        LINK_PREFIX@ == link_prefix(),
        link_prefix() == SCHEME@ + "://"@,
        link_prefix() == seq!['m', 'e', 'n', 't', 'e', 'm', ':', '/', '/'],
{
    reveal_strlit("mentem://");
    reveal_strlit("mentem");
    reveal_strlit("://");
    assert(link_prefix() =~= seq!['m', 'e', 'n', 't', 'e', 'm', ':', '/', '/']);
    assert(link_prefix() =~= SCHEME@ + "://"@);
}

/// Tells whether `text` begins with `prefix`, character by character.
fn begins_with(text: &str, prefix: &str) -> (yes: bool)
    ensures
        yes == prefix@.is_prefix_of(text@),
{
    let n = prefix.unicode_len();
    if text.unicode_len() < n {
        return false;
    }
    let mut i: usize = 0;
    while i < n
        invariant
            i <= n,
            n == prefix@.len(),
            n <= text@.len(),
            forall|k: int| 0 <= k < i ==> text@[k] == prefix@[k],
        decreases n - i,
    {
        if text.get_char(i) != prefix.get_char(i) {
            return false;
        }
        i = i + 1;
    }
    assert(text@.subrange(0, n as int) =~= prefix@);
    true
}

/// Tells whether a launch argument is a deep link.
pub fn is_deep_link(arg: &str) -> (yes: bool)
    ensures
        yes == is_link(arg@),
{
    begins_with(arg, LINK_PREFIX)
}

/// Keeps the deep links among the launch arguments.
pub fn deep_links(args: &[String]) -> (urls: Vec<String>)
    ensures
        urls@ == links_in(args@),
{
    let mut urls: Vec<String> = Vec::new();
    let mut i: usize = 0;
    proof {
        reveal(Seq::filter);
        assert(args@.take(0) =~= Seq::<String>::empty());
    }
    while i < args.len()
        invariant
            i <= args.len(),
            urls@ == links_in(args@.take(i as int)),
        decreases args.len() - i,
    {
        let arg = &args[i];
        proof {
            assert(args@.take(i + 1) =~= args@.take(i as int).push(args@[i as int]));
            args@.take(i as int).lemma_filter_push(args@[i as int], |a: String| is_link(a@));
        }
        if is_deep_link(arg.as_str()) {
            urls.push(arg.clone());
        }
        i = i + 1;
    }
    assert(args@.take(i as int) =~= args@);
    urls
}

/// A single argument is kept if it is a deep link and dropped if not.
pub proof fn lemma_links_in_one(arg: String)
    ensures
        links_in(seq![arg]) == if is_link(arg@) {
            seq![arg]
        } else {
            Seq::<String>::empty()
        },
{
    let pred = |a: String| is_link(a@);
    reveal(Seq::filter);
    assert(Seq::<String>::empty().filter(pred) =~= Seq::<String>::empty());
    assert(seq![arg] =~= Seq::<String>::empty().push(arg));
    Seq::<String>::empty().lemma_filter_push(arg, pred);
}

/// The deep links of two argument lists put end to end are the deep links of
/// the first followed by those of the second: the order of the arguments is
/// kept, and a link that occurs twice is kept twice.
pub proof fn lemma_links_in_concat(first: Seq<String>, second: Seq<String>)
    ensures
        links_in(first + second) == links_in(first) + links_in(second),
{
    Seq::filter_distributes_over_add(first, second, |a: String| is_link(a@));
}

/// Every string that is kept is a deep link and one of the arguments, and
/// every argument that is a deep link is kept.
pub proof fn lemma_links_in_members(args: Seq<String>)
    ensures
        forall|i: int|
            0 <= i < links_in(args).len() ==> is_link((#[trigger] links_in(args)[i])@)
                && args.contains(links_in(args)[i]),
        forall|i: int|
            0 <= i < args.len() && is_link((#[trigger] args[i])@) ==> links_in(args).contains(
                args[i],
            ),
        links_in(args).len() <= args.len(),
{
    let pred = |a: String| is_link(a@);
    args.lemma_filter_len(pred);
    assert forall|i: int| 0 <= i < links_in(args).len() implies is_link(
        (#[trigger] links_in(args)[i])@,
    ) && args.contains(links_in(args)[i]) by {
        args.lemma_filter_pred(pred, i);
        assert(links_in(args).contains(links_in(args)[i]));
        args.lemma_filter_contains_rev(pred, links_in(args)[i]);
    }
    assert forall|i: int| 0 <= i < args.len() && is_link((#[trigger] args[i])@) implies links_in(
        args,
    ).contains(args[i]) by {
        args.lemma_filter_contains(pred, i);
    }
}

} // verus!
