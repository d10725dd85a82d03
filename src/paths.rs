//! The table of static assets and the paths they are served under.

use vstd::prelude::*;

verus! {

/// The prefix of every static asset's path.
pub open spec fn static_prefix() -> Seq<char> {
    seq!['/', 's', 't', 'a', 't', 'i', 'c', '/']
}

/// The names of the static assets, in order.
pub open spec fn static_asset_names() -> Seq<Seq<char>> {
    seq![
        "addfiles.svg"@,
        "app.css"@,
        "app.js"@,
        "apple-touch-icon.png"@,
        "favicon-16x16.png"@,
        "favicon-32x32.png"@,
        "icon.svg"@,
        "safari-pinned-tab.svg"@,
        "send-fb.jpg"@,
        "send-twitter.jpg"@,
        "wordmark.svg"@,
    ]
}

/// Adds the asset `name` with its path to `v`.
fn push_asset(v: &mut Vec<(String, String)>, name: &str)
    ensures
        final(v)@.len() == old(v)@.len() + 1,
        forall|i: int| 0 <= i < old(v)@.len() ==> final(v)@[i] == old(v)@[i],
        final(v)@.last().0@ == name@,
        final(v)@.last().1@ == static_prefix() + name@,
{
    let mut path = String::from_str("/static/");
    proof {
        reveal_strlit("/static/");
    }
    path.append(name);
    v.push((String::from_str(name), path));
}

/// Each static asset's name paired with the path it is served under.
pub fn create_path_map() -> (r: Vec<(String, String)>)
    ensures
        r@.map_values(|p: (String, String)| p.0@) == static_asset_names(),
        forall|i: int| 0 <= i < r@.len() ==> #[trigger] r@[i].1@ == static_prefix() + r@[i].0@,
{
    let mut v: Vec<(String, String)> = Vec::new();
    push_asset(&mut v, "addfiles.svg");
    push_asset(&mut v, "app.css");
    push_asset(&mut v, "app.js");
    push_asset(&mut v, "apple-touch-icon.png");
    push_asset(&mut v, "favicon-16x16.png");
    push_asset(&mut v, "favicon-32x32.png");
    push_asset(&mut v, "icon.svg");
    push_asset(&mut v, "safari-pinned-tab.svg");
    push_asset(&mut v, "send-fb.jpg");
    push_asset(&mut v, "send-twitter.jpg");
    push_asset(&mut v, "wordmark.svg");
    assert(v@.map_values(|p: (String, String)| p.0@) =~= static_asset_names());
    v
}

} // verus!
