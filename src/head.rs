//! Header fields and the response head built from them.
use vstd::prelude::*;

verus! {

/// A header field as bytes: name and value.
pub type FieldBytes = (Seq<u8>, Seq<u8>);

/// The byte view of a list of header fields.
pub open spec fn fields_view(h: Seq<(Vec<u8>, Vec<u8>)>) -> Seq<FieldBytes> {
    h.map_values(|e: (Vec<u8>, Vec<u8>)| (e.0@, e.1@))
}

/// The fields of `h` with the field `name` set to `value`: any earlier field of
/// that name is dropped and the new one comes last.
pub open spec fn set_field(h: Seq<FieldBytes>, name: Seq<u8>, value: Seq<u8>) -> Seq<FieldBytes> {
    h.filter(named_otherwise(name)).push((name, value))
}

/// Holds of the fields whose name is not `name`.
pub open spec fn named_otherwise(name: Seq<u8>) -> spec_fn(FieldBytes) -> bool {
    |e: FieldBytes| e.0 != name
}

/// The fields of `h` after setting each field of `updates` in turn, so that
/// the last of several fields with one name wins.
pub open spec fn set_fields(h: Seq<FieldBytes>, updates: Seq<FieldBytes>) -> Seq<FieldBytes>
    decreases updates.len(),
{
    if updates.len() == 0 {
        h
    } else {
        set_field(set_fields(h, updates.drop_last()), updates.last().0, updates.last().1)
    }
}

/// `"HTTP/1.0 200 OK\r\n"`
pub open spec fn status_line() -> Seq<u8> {
    seq![72, 84, 84, 80, 47, 49, 46, 48, 32, 50, 48, 48, 32, 79, 75, 13, 10]
}

/// `"\r\n"`
pub open spec fn crlf() -> Seq<u8> {
    seq![13, 10]
}

/// `": "`
pub open spec fn name_separator() -> Seq<u8> {
    seq![58, 32]
}

/// One header line: `<name>: <value>\r\n`.
pub open spec fn field_line(f: FieldBytes) -> Seq<u8> {
    f.0 + name_separator() + f.1 + crlf()
}

/// The header lines of `h`, in order.
pub open spec fn field_lines(h: Seq<FieldBytes>) -> Seq<u8>
    decreases h.len(),
{
    if h.len() == 0 {
        Seq::empty()
    } else {
        field_lines(h.drop_last()) + field_line(h.last())
    }
}

/// The response head: status line, one line per field, blank line.
pub open spec fn response_head(h: Seq<FieldBytes>) -> Seq<u8> {
    status_line() + field_lines(h) + crlf()
}

/// Whether two byte strings are equal.
pub fn bytes_equal(a: &Vec<u8>, b: &Vec<u8>) -> (r: bool)
    ensures
        r == (a@ == b@),
{
    if a.len() != b.len() {
        return false;
    }
    let mut i: usize = 0;
    while i < a.len()
        invariant
            a@.len() == b@.len(),
            i <= a@.len(),
            a@.subrange(0, i as int) == b@.subrange(0, i as int),
        decreases a@.len() - i,
    {
        if a[i] != b[i] {
            assert(a@[i as int] != b@[i as int]);
            return false;
        }
        assert(a@.subrange(0, i + 1) =~= a@.subrange(0, i as int).push(a@[i as int]));
        assert(b@.subrange(0, i + 1) =~= b@.subrange(0, i as int).push(b@[i as int]));
        i = i + 1;
    }
    assert(a@ =~= a@.subrange(0, i as int));
    assert(b@ =~= b@.subrange(0, i as int));
    true
}

/// Appends the bytes of `src` to `out`.
pub fn append_bytes(out: &mut Vec<u8>, src: &Vec<u8>)
    ensures
        final(out)@ == old(out)@ + src@,
{
    let ghost start = out@;
    let mut i: usize = 0;
    while i < src.len()
        invariant
            i <= src@.len(),
            out@ == start + src@.subrange(0, i as int),
        decreases src@.len() - i,
    {
        out.push(src[i]);
        assert(src@.subrange(0, i + 1) =~= src@.subrange(0, i as int).push(src@[i as int]));
        i = i + 1;
    }
    assert(src@ =~= src@.subrange(0, i as int));
}

/// A fresh copy of `src`.
pub fn copy_bytes(src: &Vec<u8>) -> (r: Vec<u8>)
    ensures
        r@ == src@,
{
    let mut r: Vec<u8> = Vec::new();
    append_bytes(&mut r, src);
    assert(r@ =~= src@);
    r
}

/// Sets the field `name` to `value`: any earlier field of that name is removed
/// and the new field is placed last.
pub fn set_header(headers: &mut Vec<(Vec<u8>, Vec<u8>)>, name: Vec<u8>, value: Vec<u8>)
    ensures
        fields_view(final(headers)@) == set_field(fields_view(old(headers)@), name@, value@),
{
    let ghost pred = named_otherwise(name@);
    let mut kept: Vec<(Vec<u8>, Vec<u8>)> = Vec::new();
    let mut i: usize = 0;
    while i < headers.len()
        invariant
            i <= headers@.len(),
            pred == named_otherwise(name@),
            fields_view(kept@) == fields_view(headers@.subrange(0, i as int)).filter(pred),
        decreases headers@.len() - i,
    {
        let ghost before = fields_view(headers@.subrange(0, i as int));
        let ghost after = fields_view(headers@.subrange(0, i + 1));
        assert(after.drop_last() =~= before);
        assert(after.last() == (headers@[i as int].0@, headers@[i as int].1@));
        proof {
            reveal(Seq::filter);
        }
        assert(after.filter(pred) == if pred(after.last()) {
            before.filter(pred).push(after.last())
        } else {
            before.filter(pred)
        });
        let same = bytes_equal(&headers[i].0, &name);
        if !same {
            let n = copy_bytes(&headers[i].0);
            let v = copy_bytes(&headers[i].1);
            let ghost old_kept = kept@;
            kept.push((n, v));
            assert(fields_view(kept@) =~= fields_view(old_kept).push((n@, v@)));
        }
        i = i + 1;
    }
    assert(headers@.subrange(0, i as int) =~= headers@);
    let ghost filtered = fields_view(kept@);
    kept.push((name, value));
    assert(fields_view(kept@) =~= filtered.push((name@, value@)));
    *headers = kept;
}

/// Builds the response head for the fields `fields`.
pub fn render_head(fields: &Vec<(Vec<u8>, Vec<u8>)>) -> (r: Vec<u8>)
    ensures
        r@ == response_head(fields_view(fields@)),
{
    let mut head: Vec<u8> = vec![72, 84, 84, 80, 47, 49, 46, 48, 32, 50, 48, 48, 32, 79, 75, 13, 10];
    assert(head@ =~= status_line());
    let mut i: usize = 0;
    while i < fields.len()
        invariant
            i <= fields@.len(),
            head@ == status_line() + field_lines(fields_view(fields@.subrange(0, i as int))),
        decreases fields@.len() - i,
    {
        let ghost before = fields_view(fields@.subrange(0, i as int));
        let ghost after = fields_view(fields@.subrange(0, i + 1));
        assert(after.drop_last() =~= before);
        assert(after.last() == (fields@[i as int].0@, fields@[i as int].1@));
        let ghost start = head@;
        append_bytes(&mut head, &fields[i].0);
        head.push(58u8);
        head.push(32u8);
        append_bytes(&mut head, &fields[i].1);
        head.push(13u8);
        head.push(10u8);
        assert(head@ =~= start + field_line(after.last()));
        i = i + 1;
    }
    assert(fields@.subrange(0, i as int) =~= fields@);
    let ghost body = head@;
    head.push(13u8);
    head.push(10u8);
    assert(head@ =~= body + crlf());
    head
}

} // verus!
