use vstd::prelude::*;
use vstd::utf8::*;
use vstd::string::*;

verus! {

/// The byte that separates the fields of a command on the wire.
pub const SEPARATOR: u8 = 124u8;

/// Splits `bytes` at every occurrence of `sep`, as `<[u8]>::split` does:
/// `n` separators give `n + 1` fields, some of which may be empty.
pub open spec fn split_on(bytes: Seq<u8>, sep: u8) -> Seq<Seq<u8>>
    decreases bytes.len(),
{
    if bytes.len() == 0 {
        seq![Seq::<u8>::empty()]
    } else {
        let fields = split_on(bytes.drop_last(), sep);
        if bytes.last() == sep {
            fields.push(Seq::<u8>::empty())
        } else {
            fields.update(fields.len() - 1, fields.last().push(bytes.last()))
        }
    }
}

/// Concatenates `fields` with one `sep` between each two neighbours.
pub open spec fn join_on(fields: Seq<Seq<u8>>, sep: u8) -> Seq<u8>
    decreases fields.len(),
{
    if fields.len() == 0 {
        Seq::<u8>::empty()
    } else if fields.len() == 1 {
        fields[0]
    } else {
        join_on(fields.drop_last(), sep).push(sep) + fields.last()
    }
}

/// The text of field `index`, where that field exists and is valid UTF-8.
pub open spec fn field_text(fields: Seq<Seq<u8>>, index: int) -> Option<Seq<char>> {
    if 0 <= index < fields.len() && valid_utf8(fields[index]) {
        Some(decode_utf8(fields[index]))
    } else {
        None
    }
}

/// No field holds the separator byte.
pub open spec fn fields_free_of(fields: Seq<Seq<u8>>, sep: u8) -> bool {
    forall|i: int| 0 <= i < fields.len() ==> !(#[trigger] fields[i]).contains(sep)
}

/// Splitting always gives at least one field.
pub proof fn lemma_split_nonempty(bytes: Seq<u8>, sep: u8)
    ensures
        split_on(bytes, sep).len() >= 1,
    decreases bytes.len(),
{
    if bytes.len() > 0 {
        lemma_split_nonempty(bytes.drop_last(), sep);
    }
}

/// No field of a split holds the separator.
pub proof fn lemma_split_fields_free(bytes: Seq<u8>, sep: u8)
    ensures
        fields_free_of(split_on(bytes, sep), sep),
    decreases bytes.len(),
{
    if bytes.len() > 0 {
        let rest = bytes.drop_last();
        lemma_split_fields_free(rest, sep);
        lemma_split_nonempty(rest, sep);
        let fields = split_on(rest, sep);
        let b = bytes.last();
        let out = split_on(bytes, sep);
        assert forall|i: int| 0 <= i < out.len() implies !(#[trigger] out[i]).contains(sep) by {
            if b != sep && i == fields.len() - 1 {
                let last = fields.last();
                assert(!last.contains(sep));
                if last.push(b).contains(sep) {
                    let j = choose|j: int| 0 <= j < last.push(b).len() && last.push(b)[j] == sep;
                    if j < last.len() {
                        assert(last[j] == sep);
                    }
                }
            } else if i < fields.len() {
                assert(out[i] == fields[i]);
            } else {
                assert(out[i] == Seq::<u8>::empty());
            }
        }
    }
}

/// Extending the last field by one byte extends the joined bytes by that byte.
proof fn lemma_join_extend_last(fields: Seq<Seq<u8>>, sep: u8, b: u8)
    requires
        fields.len() >= 1,
    ensures
        join_on(fields.update(fields.len() - 1, fields.last().push(b)), sep) == join_on(
            fields,
            sep,
        ).push(b),
{
    let longer = fields.update(fields.len() - 1, fields.last().push(b));
    if fields.len() > 1 {
        assert(longer.drop_last() =~= fields.drop_last());
        assert(join_on(longer, sep) =~= join_on(fields, sep).push(b));
    }
}

/// Joining the fields that a split gives back restores the bytes that were
/// split: reading a command and writing it out again loses nothing.
pub proof fn lemma_join_split(bytes: Seq<u8>, sep: u8)
    ensures
        join_on(split_on(bytes, sep), sep) == bytes,
    decreases bytes.len(),
{
    if bytes.len() > 0 {
        let rest = bytes.drop_last();
        lemma_join_split(rest, sep);
        lemma_split_nonempty(rest, sep);
        let fields = split_on(rest, sep);
        if bytes.last() == sep {
            assert(fields.push(Seq::<u8>::empty()).drop_last() =~= fields);
            assert(join_on(fields.push(Seq::<u8>::empty()), sep) =~= rest.push(sep));
        } else {
            lemma_join_extend_last(fields, sep, bytes.last());
        }
        assert(rest.push(bytes.last()) =~= bytes);
    }
}

/// Splitting `prefix + tail`, where `tail` holds no separator, gives the
/// fields of `prefix` with `tail` added to the last one.
proof fn lemma_split_append_plain(prefix: Seq<u8>, tail: Seq<u8>, sep: u8)
    requires
        !tail.contains(sep),
    ensures
        split_on(prefix + tail, sep) == split_on(prefix, sep).update(
            split_on(prefix, sep).len() - 1,
            split_on(prefix, sep).last() + tail,
        ),
    decreases tail.len(),
{
    lemma_split_nonempty(prefix, sep);
    let fields = split_on(prefix, sep);
    let k = fields.len() - 1;
    if tail.len() == 0 {
        assert(prefix + tail =~= prefix);
        assert(fields.update(k, fields.last() + tail) =~= fields);
    } else {
        let shorter = tail.drop_last();
        let b = tail.last();
        assert(!shorter.contains(sep)) by {
            if shorter.contains(sep) {
                let j = choose|j: int| 0 <= j < shorter.len() && shorter[j] == sep;
                assert(tail[j] == sep);
            }
        }
        assert(tail[tail.len() - 1] == b);
        lemma_split_append_plain(prefix, shorter, sep);
        assert((prefix + tail).drop_last() =~= prefix + shorter);
        assert((prefix + tail).last() == b);
        let mid = fields.update(k, fields.last() + shorter);
        assert(shorter.push(b) =~= tail);
        assert((fields.last() + shorter).push(b) =~= fields.last() + tail);
        assert(mid.last() == fields.last() + shorter);
        assert(mid.update(k, mid.last().push(b)) =~= fields.update(k, fields.last() + tail));
    }
}

/// Splitting the joined fields gives the fields back, when there is at least
/// one field and none holds the separator: writing a command and reading it
/// back restores it.
pub proof fn lemma_split_join(fields: Seq<Seq<u8>>, sep: u8)
    requires
        fields.len() >= 1,
        fields_free_of(fields, sep),
    ensures
        split_on(join_on(fields, sep), sep) == fields,
    decreases fields.len(),
{
    if fields.len() == 1 {
        assert(!fields[0].contains(sep));
        lemma_split_append_plain(Seq::<u8>::empty(), fields[0], sep);
        assert(Seq::<u8>::empty() + fields[0] =~= fields[0]);
        assert(split_on(Seq::<u8>::empty(), sep).update(0, Seq::<u8>::empty() + fields[0])
            =~= fields);
    } else {
        let front = fields.drop_last();
        let last = fields.last();
        assert(fields_free_of(front, sep)) by {
            assert forall|i: int| 0 <= i < front.len() implies !(#[trigger] front[i]).contains(
                sep,
            ) by {
                assert(front[i] == fields[i]);
            }
        }
        assert(!last.contains(sep)) by {
            assert(fields[fields.len() - 1] == last);
        }
        lemma_split_join(front, sep);
        let head = join_on(front, sep).push(sep);
        assert(head.drop_last() =~= join_on(front, sep));
        assert(split_on(head, sep) == front.push(Seq::<u8>::empty()));
        lemma_split_append_plain(head, last, sep);
        let pushed = front.push(Seq::<u8>::empty());
        assert(pushed.update(pushed.len() - 1, pushed.last() + last) =~= fields);
    }
}

/// An argument added to a command is read back unchanged at the index it was
/// added at.
pub proof fn lemma_added_arg_reads_back(fields: Seq<Seq<u8>>, arg: Seq<char>)
    ensures
        field_text(fields.push(encode_utf8(arg)), fields.len() as int) == Some(arg),
{
    encode_utf8_valid_utf8(arg);
    encode_utf8_decode_utf8(arg);
}

/// Adding an argument leaves the fields already there, and their text, as
/// they were.
pub proof fn lemma_added_arg_keeps_others(fields: Seq<Seq<u8>>, arg: Seq<char>, index: int)
    requires
        0 <= index < fields.len(),
    ensures
        field_text(fields.push(encode_utf8(arg)), index) == field_text(fields, index),
{
}

/// The UTF-8 encoding of one scalar holds the separator byte only where the
/// scalar is the separator itself: every byte of a longer encoding has its
/// high bit set.
proof fn lemma_scalar_separator_free(scalar: u32)
    requires
        is_scalar(scalar),
        scalar != SEPARATOR as u32,
    ensures
        !encode_scalar(scalar).contains(SEPARATOR),
{
    let bytes = encode_scalar(scalar);
    if has_width_1_encoding(scalar) {
        assert((scalar & 0x7F) as u8 != 124u8) by (bit_vector)
            requires
                scalar <= 0x7F,
                scalar != 124u32,
        ;
        assert(bytes[0] != SEPARATOR);
    } else {
        assert(forall|x: u8| #[trigger] (0x80u8 | x) != 124u8) by (bit_vector);
        assert(forall|x: u8| #[trigger] (0xC0u8 | x) != 124u8) by (bit_vector);
        assert(forall|x: u8| #[trigger] (0xE0u8 | x) != 124u8) by (bit_vector);
        assert(forall|x: u8| #[trigger] (0xF0u8 | x) != 124u8) by (bit_vector);
        assert forall|i: int| 0 <= i < bytes.len() implies bytes[i] != SEPARATOR by {
        }
    }
}

/// Text without the `|` character encodes to bytes without the separator.
pub proof fn lemma_encode_separator_free(chars: Seq<char>)
    requires
        !chars.contains('|'),
    ensures
        !encode_utf8(chars).contains(SEPARATOR),
    decreases chars.len(),
{
    if chars.len() > 0 {
        let rest = chars.drop_first();
        assert(!rest.contains('|')) by {
            if rest.contains('|') {
                let j = choose|j: int| 0 <= j < rest.len() && rest[j] == '|';
                assert(chars[j + 1] == '|');
            }
        }
        lemma_encode_separator_free(rest);
        char_is_scalar(chars[0]);
        assert(chars[0] != '|');
        if chars[0] as u32 == 124u32 {
            assert('|' as u32 == 124u32);
            char_u32_cast(chars[0], 124u32);
            char_u32_cast('|', 124u32);
        }
        lemma_scalar_separator_free(chars[0] as u32);
        let head = encode_scalar(chars[0] as u32);
        let tail = encode_utf8(rest);
        assert forall|i: int| 0 <= i < (head + tail).len() implies (head + tail)[i] != SEPARATOR by {
            if i < head.len() {
                assert(head[i] != SEPARATOR);
            } else {
                assert(tail[i - head.len()] != SEPARATOR);
            }
        }
    }
}

/// A command as it travels between client and server: a list of byte fields,
/// the first of which holds the command's type.
#[derive(Debug)]
pub struct Command {
    data: Vec<Vec<u8>>,
}

impl Command {
    /// A command always has at least its type field.
    #[verifier::type_invariant]
    spec fn has_type_field(self) -> bool {
        self.data@.len() >= 1
    }
}

impl View for Command {
    type V = Seq<Seq<u8>>;

    closed spec fn view(&self) -> Seq<Seq<u8>> {
        self.data@.map_values(|field: Vec<u8>| field@)
    }
}

/// Calls `std::str::from_utf8` and keeps the string slice where it succeeds.
/// Its documentation says that it fails exactly when the bytes are not valid
/// UTF-8, and that on success the string slice is made of those same bytes.
#[verifier::external_body]
fn utf8_str(bytes: &[u8]) -> (text: Option<&str>)
    ensures
        text is Some <==> valid_utf8(bytes@),
        text matches Some(s) ==> s.spec_bytes() == bytes@,
{
    std::str::from_utf8(bytes).ok()
}

/// Appends the bytes of `src` to `out`.
fn append_bytes(out: &mut Vec<u8>, src: &Vec<u8>)
    ensures
        final(out)@ == old(out)@ + src@,
{
    let n = src.len();
    let mut i: usize = 0;
    while i < n
        invariant
            n == src@.len(),
            i <= n,
            out@ == old(out)@ + src@.take(i as int),
        decreases n - i,
    {
        out.push(src[i]);
        assert(src@.take(i + 1) =~= src@.take(i as int).push(src@[i as int]));
        i = i + 1;
    }
    assert(src@.take(n as int) =~= src@);
}

impl Command {
    /// Creates a command that holds only its type byte.
    pub fn new(cmd_type: u8) -> (cmd: Command)
        ensures
            cmd@ == seq![seq![cmd_type]],
    {
        let mut field: Vec<u8> = Vec::new();
        field.push(cmd_type);
        let mut data: Vec<Vec<u8>> = Vec::new();
        data.push(field);
        let cmd = Command { data };
        assert(cmd@ =~= seq![seq![cmd_type]]);
        cmd
    }

    /// Reads a command from the bytes received on the wire: the fields are
    /// the runs of bytes between separators.
    pub fn new_from_b_array(buf: Vec<u8>) -> (cmd: Command)
        ensures
            cmd@ == split_on(buf@, SEPARATOR),
    {
        let mut data: Vec<Vec<u8>> = Vec::new();
        let mut current: Vec<u8> = Vec::new();
        let mut i: usize = 0;
        while i < buf.len()
            invariant
                i <= buf@.len(),
                data@.map_values(|field: Vec<u8>| field@).push(current@) == split_on(
                    buf@.take(i as int),
                    SEPARATOR,
                ),
            decreases buf@.len() - i,
        {
            let byte = buf[i];
            let ghost before = data@.map_values(|field: Vec<u8>| field@);
            let ghost cur_before = current@;
            assert(buf@.take(i + 1).drop_last() =~= buf@.take(i as int));
            assert(buf@.take(i + 1).last() == byte);
            if byte == SEPARATOR {
                data.push(current);
                current = Vec::new();
                assert(data@.map_values(|field: Vec<u8>| field@) =~= before.push(cur_before));
            } else {
                current.push(byte);
                assert(before.push(cur_before).update(before.len() as int, cur_before.push(byte))
                    =~= before.push(current@));
            }
            i = i + 1;
        }
        assert(buf@.take(buf@.len() as int) =~= buf@);
        let ghost before = data@.map_values(|field: Vec<u8>| field@);
        let ghost cur = current@;
        data.push(current);
        let cmd = Command { data };
        assert(cmd@ =~= before.push(cur));
        cmd
    }

    /// Adds an argument, as the bytes of its UTF-8 encoding, after the
    /// fields already there.
    pub fn add_arg(&mut self, arg: &str)
        ensures
            final(self)@ == old(self)@.push(encode_utf8(arg@)),
    {
        let bytes = vstd::slice::slice_to_vec(arg.as_bytes());
        let ghost before = self@;
        let mut data: Vec<Vec<u8>> = Vec::new();
        data.push(Vec::new());
        std::mem::swap(&mut data, &mut self.data);
        data.push(bytes);
        self.data = data;
        assert(self@ =~= before.push(encode_utf8(arg@)));
    }

    /// The bytes that go on the wire: the fields joined by separators.
    /// Reading the bytes back gives the same fields where no field holds the
    /// separator.
    pub fn get_cmd(self) -> (bytes: Vec<u8>)
        ensures
            bytes@ == join_on(self@, SEPARATOR),
            self@.len() >= 1,
            fields_free_of(self@, SEPARATOR) ==> split_on(bytes@, SEPARATOR) == self@,
    {
        proof {
            use_type_invariant(&self);
            if fields_free_of(self@, SEPARATOR) {
                lemma_split_join(self@, SEPARATOR);
            }
        }
        let ghost fields = self@;
        let mut out: Vec<u8> = Vec::new();
        let n = self.data.len();
        let mut i: usize = 0;
        while i < n
            invariant
                n == self.data@.len(),
                fields == self@,
                fields.len() == n,
                i <= n,
                out@ == join_on(fields.take(i as int), SEPARATOR),
            decreases n - i,
        {
            assert(fields.take(i + 1).drop_last() =~= fields.take(i as int));
            assert(fields.take(i + 1).last() == self.data@[i as int]@);
            if i > 0 {
                out.push(SEPARATOR);
            } else {
                assert(out@ =~= Seq::<u8>::empty());
            }
            append_bytes(&mut out, &self.data[i]);
            i = i + 1;
        }
        assert(fields.take(n as int) =~= fields);
        out
    }

    /// The text of argument `index`: `None` where there is no such field or
    /// where its bytes are not valid UTF-8.
    pub fn get_arg(&self, index: usize) -> (arg: Option<&str>)
        ensures
            match arg {
                Some(s) => field_text(self@, index as int) == Some(s@),
                None => field_text(self@, index as int) is None,
            },
    {
        if index < self.data.len() {
            let text = utf8_str(self.data[index].as_slice());
            proof {
                if let Some(s) = text {
                    encode_utf8_decode_utf8(s@);
                }
            }
            text
        } else {
            None
        }
    }
}

} // verus!
