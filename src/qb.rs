//! The torrent client's web API as the library sees it: endpoint URLs and
//! the text fields of an add request.
use vstd::prelude::*;
use crate::pipeline::AddTorrentRequest;

verus! {

/// `{base}/api/v2/{api}/{method}`.
pub open spec fn api_url_text(base: Seq<char>, api: Seq<char>, method: Seq<char>) -> Seq<char> {
    base + "/api/v2/"@ + api + "/"@ + method
}

/// The URL of an API method of the torrent client.
pub fn api_url(base: &str, api: &str, method: &str) -> (r: String)
    ensures
        r@ == api_url_text(base@, api@, method@),
{
    let mut s = String::from_str(base);
    s.append("/api/v2/");
    s.append(api);
    s.append("/");
    s.append(method);
    s
}

/// The parts joined with `sep` between each two.
pub open spec fn joined(parts: Seq<String>, sep: Seq<char>) -> Seq<char>
    decreases parts.len(),
{
    if parts.len() == 0 {
        Seq::empty()
    } else if parts.len() == 1 {
        parts[0]@
    } else {
        joined(parts.drop_last(), sep) + sep + parts.last()@
    }
}

/// The parts joined with `sep` between each two.
pub fn join_with(parts: &Vec<String>, sep: &str) -> (r: String)
    ensures
        r@ == joined(parts@, sep@),
{
    if parts.len() == 0 {
        return String::new();
    }
    let mut s = parts[0].clone();
    assert(parts@.subrange(0, 1).drop_last() =~= Seq::<String>::empty());
    let mut i: usize = 1;
    while i < parts.len()
        invariant
            1 <= i <= parts@.len(),
            s@ == joined(parts@.subrange(0, i as int), sep@),
        decreases parts.len() - i,
    {
        s.append(sep);
        s.append(parts[i].as_str());
        assert(parts@.subrange(0, i + 1).drop_last() =~= parts@.subrange(0, i as int));
        i = i + 1;
    }
    assert(parts@.subrange(0, i as int) =~= parts@);
    s
}

/// A named text part of a multipart form.
pub struct FormField {
    pub name: String,
    pub text: String,
}

/// A field when the value is present, nothing otherwise.
pub open spec fn opt_field(name: Seq<char>, v: Option<String>) -> Seq<(Seq<char>, Seq<char>)> {
    match v {
        Some(s) => seq![(name, s@)],
        None => Seq::empty(),
    }
}

pub open spec fn bool_text(b: bool) -> Seq<char> {
    if b { "true"@ } else { "false"@ }
}

/// The text fields of an add request, in order: the URLs one per line,
/// save path, content layout, category, the tags separated by commas,
/// rename, automatic management and ratio limit; each only when set (the
/// lists only when not empty).
pub open spec fn add_fields(req: AddTorrentRequest) -> Seq<(Seq<char>, Seq<char>)> {
    (if req.urls@.len() > 0 {
        seq![("urls"@, joined(req.urls@, "\n"@))]
    } else {
        Seq::empty()
    }) + opt_field("savepath"@, req.savepath) + opt_field("contentLayout"@, req.content_layout)
        + opt_field("category"@, req.category) + (if req.tags@.len() > 0 {
        seq![("tags"@, joined(req.tags@, ","@))]
    } else {
        Seq::empty()
    }) + opt_field("rename"@, req.rename) + (match req.auto_torrent_management {
        Some(b) => seq![("autoTMM"@, bool_text(b))],
        None => Seq::empty(),
    }) + opt_field("ratioLimit"@, req.ratio_limit)
}

/// The fields as name and text.
pub open spec fn field_views(f: Seq<FormField>) -> Seq<(Seq<char>, Seq<char>)> {
    f.map_values(|x: FormField| (x.name@, x.text@))
}

fn push_field(fields: &mut Vec<FormField>, name: &str, text: String)
    ensures
        field_views(final(fields)@) == field_views(old(fields)@).push((name@, text@)),
{
    fields.push(FormField { name: String::from_str(name), text });
    assert(field_views(final(fields)@) =~= field_views(old(fields)@).push((name@, text@)));
}

fn push_opt_field(fields: &mut Vec<FormField>, name: &str, v: &Option<String>)
    ensures
        field_views(final(fields)@) == field_views(old(fields)@) + opt_field(name@, *v),
{
    match v {
        Some(s) => push_field(fields, name, s.clone()),
        None => {
            assert(field_views(old(fields)@) + opt_field(name@, *v) =~= field_views(old(fields)@));
        },
    }
}

/// The text fields of an add request; raw torrent files go as byte parts
/// besides them.
pub fn add_form_fields(req: &AddTorrentRequest) -> (r: Vec<FormField>)
    ensures
        field_views(r@) == add_fields(*req),
{
    let mut f: Vec<FormField> = Vec::new();
    if req.urls.len() > 0 {
        push_field(&mut f, "urls", join_with(&req.urls, "\n"));
    }
    push_opt_field(&mut f, "savepath", &req.savepath);
    push_opt_field(&mut f, "contentLayout", &req.content_layout);
    push_opt_field(&mut f, "category", &req.category);
    if req.tags.len() > 0 {
        push_field(&mut f, "tags", join_with(&req.tags, ","));
    }
    push_opt_field(&mut f, "rename", &req.rename);
    match req.auto_torrent_management {
        Some(b) => {
            let t = if b { String::from_str("true") } else { String::from_str("false") };
            push_field(&mut f, "autoTMM", t);
        },
        None => {},
    }
    push_opt_field(&mut f, "ratioLimit", &req.ratio_limit);
    assert(field_views(f@) =~= add_fields(*req));
    f
}

} // verus!
