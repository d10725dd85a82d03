//! The texts each page declares for rendering.

use crate::bundle::{args_view, Bundle};
use crate::texts::{TextMapBuilder, TextRequest};
use vstd::prelude::*;

verus! {

/// The ids of the texts the index page shows, in order.
pub open spec fn index_text_ids() -> Seq<Seq<char>> {
    seq![
        "javascriptRequired"@,
        "whyJavascript"@,
        "enableJavascript"@,
        "title"@,
        "dragAndDropFiles"@,
        "orClickWithSize"@,
        "addFilesButton"@,
        "introTitle"@,
        "introDescription"@,
        "footerText"@,
        "footerLinkDonate"@,
        "footerLinkCli"@,
        "footerLinkDmca"@,
        "footerLinkSource"@,
    ]
}

/// The position of the one index text that takes an argument, the size.
pub open spec fn index_sized_text() -> int {
    5
}

/// Declares the text `id`, which takes no arguments.
fn add_plain<'a>(builder: &mut TextMapBuilder<'a>, id: &str)
    ensures
        final(builder).source() == old(builder).source(),
        final(builder).declared().len() == old(builder).declared().len() + 1,
        forall|i: int|
            0 <= i < old(builder).declared().len() ==> final(builder).declared()[i] == old(
                builder,
            ).declared()[i],
        final(builder).declared().last().id@ == id@,
        final(builder).declared().last().args is None,
{
    builder.add_text(String::from_str(id), None);
}

/// A builder from `bundle` that declares every text of the index page.
pub fn index_texts<'a>(bundle: &'a Bundle) -> (r: TextMapBuilder<'a>)
    ensures
        r.source() == *bundle,
        r.declared().map_values(|q: TextRequest| q.id@) == index_text_ids(),
        forall|i: int|
            0 <= i < r.declared().len() && i != index_sized_text() ==> (
            #[trigger] r.declared()[i]).args is None,
        args_view(r.declared()[index_sized_text()].args) == Some(
            seq![("size"@, "1111"@)],
        ),
{
    let mut b = TextMapBuilder::new(bundle);
    // noscript.html.tera:
    add_plain(&mut b, "javascriptRequired");
    add_plain(&mut b, "whyJavascript");
    add_plain(&mut b, "enableJavascript");
    // header.html.tera:
    add_plain(&mut b, "title");
    // home.html.tera:
    add_plain(&mut b, "dragAndDropFiles");
    let mut size_args: Vec<(String, String)> = Vec::new();
    size_args.push((String::from_str("size"), String::from_str("1111")));
    let ghost size_view = args_view(Some(size_args));
    assert(size_view == Some(seq![("size"@, "1111"@)])) by {
        assert(size_args@.map_values(|p: (String, String)| (p.0@, p.1@)) =~= seq![
            ("size"@, "1111"@),
        ]);
    }
    b.add_text(String::from_str("orClickWithSize"), Some(size_args));
    add_plain(&mut b, "addFilesButton");
    add_plain(&mut b, "introTitle");
    add_plain(&mut b, "introDescription");
    // footer.html.tera:
    add_plain(&mut b, "footerText");
    add_plain(&mut b, "footerLinkDonate");
    add_plain(&mut b, "footerLinkCli");
    add_plain(&mut b, "footerLinkDmca");
    add_plain(&mut b, "footerLinkSource");
    assert(b.declared().map_values(|q: TextRequest| q.id@) =~= index_text_ids());
    b
}

} // verus!
