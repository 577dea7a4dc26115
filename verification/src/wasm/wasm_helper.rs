//! The calling convention between host and guest.
//!
//! Host and guest hand each other JSON text through the guest's linear
//! memory: a text lies at a pointer, as UTF-8, and ends before the first
//! zero byte. The rules of the convention are stated over plain bytes. The
//! functions that reach into a live guest apply them to the memory that the
//! engine holds; those that take a byte slice serve where the engine hands
//! the memory out, as it does to the functions that a guest calls back.

use vstd::prelude::*;
use vstd::slice::slice_subrange;
use vstd::string::StrSliceExecFns;
use vstd::string::StringSliceAdditionalSpecFns;
use vstd::utf8::decode_utf8;
use vstd::utf8::encode_scalar;
use vstd::utf8::encode_utf8;
use vstd::utf8::valid_utf8;
use crate::json::json_parse;
use crate::json::json_text;
use crate::json::json_views;
use crate::json::Json;
use crate::json::JsonView;
use crate::text::copy_str;
use crate::text::decimal;
use crate::text::decimal_of;
use crate::text::str_eq;
use crate::wasm::guest::call_with_pointer;
use crate::wasm::guest::call_with_size;
use crate::wasm::guest::export_list;
use crate::wasm::guest::exports_of;
use crate::wasm::guest::is_usable;
use crate::wasm::guest::lists;
use crate::wasm::guest::memory_of;
use crate::wasm::guest::memory_range;
use crate::wasm::guest::memory_size;
use crate::wasm::guest::memory_write;
use crate::wasm::guest::usable;
use crate::wasm::wasm_loader::ExternKind;

verus! {

/// Why a call across the boundary fails.
#[derive(Debug, Clone, Copy, PartialEq, Eq, Structural)]
pub enum AbiError {
    /// The guest cannot be reached, or lacks the function or the memory
    /// that is asked for.
    MissingExport,
    /// The guest's allocator failed, or the buffer it gave does not lie in
    /// the guest's memory.
    Allocation,
    /// The guest function trapped.
    Trap,
    /// The text that the guest returned is not JSON.
    Parse,
    /// The pointer that the guest returned lies outside its memory.
    Decode,
}

/// What `String::from_utf8_lossy` makes of bytes that are not UTF-8.
pub uninterp spec fn utf8_lossy(bytes: Seq<u8>) -> Seq<char>;

/// The text that bytes decode to, leniently: the text they encode where
/// they are UTF-8, and else what `String::from_utf8_lossy` makes of them.
pub open spec fn lossy_text(bytes: Seq<u8>) -> Seq<char> {
    if valid_utf8(bytes) {
        decode_utf8(bytes)
    } else {
        utf8_lossy(bytes)
    }
}

/// Decodes bytes leniently.
///
/// Trusted: the body is `String::from_utf8_lossy` of the standard library.
/// It is documented to return the text itself where the bytes are valid
/// UTF-8, and to replace each invalid sequence otherwise; of the second
/// case the contract only says that the result depends on the bytes alone.
#[verifier::external_body]
fn from_utf8_lossy(bytes: &[u8]) -> (r: String)
    ensures
        valid_utf8(bytes@) ==> r@ == decode_utf8(bytes@),
        !valid_utf8(bytes@) ==> r@ == utf8_lossy(bytes@),
{
    String::from_utf8_lossy(bytes).into_owned()
}

/// The position of the first zero byte at or after `from`, or the length of
/// the memory where there is none.
pub open spec fn nul_at(mem: Seq<u8>, from: int) -> int
    decreases mem.len() - from,
{
    if from < 0 || from >= mem.len() {
        mem.len() as int
    } else if mem[from] == 0 {
        from
    } else {
        nul_at(mem, from + 1)
    }
}

/// The bytes of the text at `ptr`: those from `ptr` up to the first zero
/// byte, or to the end of the memory.
pub open spec fn cstring_bytes(mem: Seq<u8>, ptr: int) -> Seq<u8> {
    mem.subrange(ptr, nul_at(mem, ptr))
}

/// The text at `ptr`. There is none where `ptr` lies outside the memory.
pub open spec fn text_at(mem: Seq<u8>, ptr: int) -> Result<Seq<char>, AbiError> {
    if 0 <= ptr <= mem.len() {
        Ok(lossy_text(cstring_bytes(mem, ptr)))
    } else {
        Err(AbiError::Decode)
    }
}

/// Whether `text` and the zero byte after it fit into the memory at `ptr`.
pub open spec fn fits(mem: Seq<u8>, ptr: int, text: Seq<char>) -> bool {
    0 <= ptr && ptr + encode_utf8(text).len() + 1 <= mem.len()
}

/// The memory after `text` and a zero byte were written at `ptr`.
pub open spec fn written(mem: Seq<u8>, ptr: int, text: Seq<char>) -> Seq<u8> {
    let bytes = encode_utf8(text).push(0u8);
    mem.subrange(0, ptr) + bytes + mem.subrange(ptr + bytes.len(), mem.len() as int)
}

/// Where the bytes from `from` up to `end` are not zero and the byte at
/// `end` is, the first zero byte at or after `from` is at `end`.
pub proof fn lemma_nul_found(mem: Seq<u8>, from: int, end: int)
    requires
        0 <= from <= end < mem.len(),
        forall|i: int| from <= i < end ==> mem[i] != 0,
        mem[end] == 0,
    ensures
        nul_at(mem, from) == end,
    decreases end - from,
{
    if from < end {
        lemma_nul_found(mem, from + 1, end);
    }
}

/// Where no byte from `from` up to `to` is zero, the first zero byte at or
/// after `from` is the first at or after `to`.
pub proof fn lemma_nul_later(mem: Seq<u8>, from: int, to: int)
    requires
        0 <= from <= to <= mem.len(),
        forall|i: int| from <= i < to ==> mem[i] != 0,
    ensures
        nul_at(mem, from) == nul_at(mem, to),
    decreases to - from,
{
    if from < to {
        lemma_nul_later(mem, from + 1, to);
    }
}

/// Reads the text at `ptr`: the bytes up to the first zero byte, decoded
/// leniently. Fails only where `ptr` lies outside the memory.
pub fn read_text(mem: &[u8], ptr: usize) -> (r: Result<String, AbiError>)
    ensures
        match r {
            Ok(s) => text_at(mem@, ptr as int) == Ok::<Seq<char>, AbiError>(s@),
            Err(e) => text_at(mem@, ptr as int) == Err::<Seq<char>, AbiError>(e),
        },
{
    if ptr > mem.len() {
        return Err(AbiError::Decode);
    }
    let mut end: usize = ptr;
    while end < mem.len() && mem[end] != 0
        invariant
            ptr <= end <= mem@.len(),
            nul_at(mem@, ptr as int) == nul_at(mem@, end as int),
        decreases mem@.len() - end,
    {
        end += 1;
    }
    let bytes = slice_subrange(mem, ptr, end);
    Ok(from_utf8_lossy(bytes))
}

/// Writes `text` and a zero byte at `ptr`. Where they do not fit into the
/// memory, nothing is written and the buffer is reported as bad.
pub fn write_text(mem: &mut [u8], ptr: usize, text: &str) -> (r: Result<(), AbiError>)
    ensures
        final(mem)@.len() == old(mem)@.len(),
        match r {
            Ok(()) => fits(old(mem)@, ptr as int, text@) && final(mem)@ == written(
                old(mem)@,
                ptr as int,
                text@,
            ),
            Err(e) => !fits(old(mem)@, ptr as int, text@) && e == AbiError::Allocation
                && final(mem)@ == old(mem)@,
        },
{
    let bytes = text.as_bytes();
    let n = bytes.len();
    if ptr > mem.len() || n >= mem.len() - ptr {
        return Err(AbiError::Allocation);
    }
    let ghost start = mem@;
    let mut i: usize = 0;
    while i < n
        invariant
            i <= n,
            n == bytes@.len(),
            ptr + n < mem@.len() <= usize::MAX,
            mem@.len() == start.len(),
            mem@ == start.subrange(0, ptr as int) + bytes@.subrange(0, i as int) + start.subrange(
                ptr + i,
                start.len() as int,
            ),
        decreases n - i,
    {
        mem[ptr + i] = bytes[i];
        i += 1;
        proof {
            assert(mem@ =~= start.subrange(0, ptr as int) + bytes@.subrange(0, i as int)
                + start.subrange(ptr + i, start.len() as int));
        }
    }
    mem[ptr + n] = 0;
    proof {
        assert(mem@ =~= written(start, ptr as int, text@));
    }
    Ok(())
}

/// The encoding of a character other than NUL holds no zero byte.
proof fn lemma_scalar_without_nul(c: char)
    requires
        c != '\0',
    ensures
        forall|i: int|
            0 <= i < encode_scalar(c as u32).len() ==> #[trigger] encode_scalar(c as u32)[i] != 0,
{
    let v = c as u32;
    vstd::utf8::char_is_scalar(c);
    if v == 0 {
        vstd::utf8::char_u32_cast(c, 0u32);
    }
    if 1 <= v <= 0x7F {
        assert((v & 0x7F) as u8 != 0) by (bit_vector)
            requires
                1 <= v <= 0x7F,
        ;
    }
    assert(forall|b: u8| 0xC0u8 | b != 0) by (bit_vector);
    assert(forall|b: u8| 0xE0u8 | b != 0) by (bit_vector);
    assert(forall|b: u8| 0xF0u8 | b != 0) by (bit_vector);
    assert(forall|b: u8| 0x80u8 | b != 0) by (bit_vector);
}

/// The encoding of a text without NUL holds no zero byte.
pub proof fn lemma_encoding_without_nul(text: Seq<char>)
    requires
        forall|i: int| 0 <= i < text.len() ==> text[i] != '\0',
    ensures
        forall|j: int| 0 <= j < encode_utf8(text).len() ==> encode_utf8(text)[j] != 0,
    decreases text.len(),
{
    if text.len() > 0 {
        lemma_scalar_without_nul(text[0]);
        lemma_encoding_without_nul(text.drop_first());
        let head = encode_scalar(text[0] as u32);
        let tail = encode_utf8(text.drop_first());
        assert forall|j: int| 0 <= j < encode_utf8(text).len() implies encode_utf8(text)[j]
            != 0 by {
            if j < head.len() {
                assert(encode_utf8(text)[j] == head[j]);
            } else {
                assert(encode_utf8(text)[j] == tail[j - head.len()]);
            }
        }
    }
}

/// A text without NUL that is written where it fits is read back as it
/// was: the bytes found at the pointer are the bytes of the text, and they
/// decode to the text.
pub proof fn lemma_write_then_read(mem: Seq<u8>, ptr: int, text: Seq<char>)
    requires
        fits(mem, ptr, text),
        forall|i: int| 0 <= i < text.len() ==> text[i] != '\0',
    ensures
        cstring_bytes(written(mem, ptr, text), ptr) == encode_utf8(text),
        text_at(written(mem, ptr, text), ptr) == Ok::<Seq<char>, AbiError>(text),
{
    let bytes = encode_utf8(text);
    let after = written(mem, ptr, text);
    lemma_encoding_without_nul(text);
    assert forall|i: int| ptr <= i < ptr + bytes.len() implies after[i] != 0 by {
        assert(after[i] == bytes[i - ptr]);
    }
    assert(after[ptr + bytes.len()] == 0);
    lemma_nul_found(after, ptr, ptr + bytes.len());
    assert(cstring_bytes(after, ptr) =~= bytes);
    vstd::utf8::encode_utf8_valid_utf8(text);
    vstd::utf8::encode_utf8_decode_utf8(text);
}

/// The request that carries the arguments `args` to a handler: the
/// arguments under the key `body`.
pub open spec fn request(args: JsonView) -> Seq<char> {
    json_text(JsonView::Object(seq![("body"@, args)]))
}

/// What the host asks of the guest to call one of its functions: a buffer
/// of `size` bytes for the request, and then the call of `function` on it.
#[derive(Debug, PartialEq, Eq)]
pub struct CallPlan {
    pub function: String,
    pub request: String,
    pub size: u64,
}

/// What the guest returned at `ptr`: the text there, read as JSON.
pub open spec fn result_at(mem: Seq<u8>, ptr: int) -> Result<JsonView, AbiError> {
    match text_at(mem, ptr) {
        Err(e) => Err(e),
        Ok(text) => match json_parse(text) {
            Some(value) => Ok(value),
            None => Err(AbiError::Parse),
        },
    }
}

impl CallPlan {
    /// Plans the call of the guest function `f` with the arguments `args`: the
    /// request is the arguments wrapped under `body`, and the buffer to
    /// allocate holds exactly the request and the zero byte after it.
    pub fn new(f: String, args: &Json) -> (r: Result<CallPlan, AbiError>)
        ensures
            match r {
                Ok(p) => p.function@ == f@ && p.request@ == request(args@) && p.size == encode_utf8(
                    p.request@,
                ).len() + 1,
                Err(e) => e == AbiError::Allocation && encode_utf8(request(args@)).len() + 1
                    > u64::MAX,
            },
    {
        let mut entries: Vec<(String, Json)> = Vec::new();
        entries.push((copy_str("body"), args.copy()));
        let wrapped = Json::object(entries);
        proof {
            assert(wrapped@->Object_0 =~= seq![("body"@, args@)]);
        }
        let text = wrapped.render();
        let n = text.as_str().as_bytes().len();
        if n as u64 >= u64::MAX {
            return Err(AbiError::Allocation);
        }
        Ok(CallPlan { function: f, request: text, size: n as u64 + 1 })
    }

    /// Puts the request into the buffer that the guest allocated at `ptr`.
    pub fn place(&self, mem: &mut [u8], ptr: usize) -> (r: Result<(), AbiError>)
        ensures
            final(mem)@.len() == old(mem)@.len(),
            match r {
                Ok(()) => fits(old(mem)@, ptr as int, self.request@) && final(mem)@ == written(
                    old(mem)@,
                    ptr as int,
                    self.request@,
                ),
                Err(e) => !fits(old(mem)@, ptr as int, self.request@) && e
                    == AbiError::Allocation && final(mem)@ == old(mem)@,
            },
    {
        write_text(mem, ptr, self.request.as_str())
    }

    /// Reads the result that the guest function returned at `ptr`.
    pub fn result(mem: &[u8], ptr: usize) -> (r: Result<Json, AbiError>)
        ensures
            match r {
                Ok(value) => result_at(mem@, ptr as int) == Ok::<JsonView, AbiError>(value@),
                Err(e) => result_at(mem@, ptr as int) == Err::<JsonView, AbiError>(e),
            },
    {
        match read_text(mem, ptr) {
            Err(e) => Err(e),
            Ok(text) => match Json::parse(text.as_str()) {
                Some(value) => Ok(value),
                None => Err(AbiError::Parse),
            },
        }
    }
}

/// The answer to a data call that succeeded with `data`.
pub open spec fn ok_response(data: JsonView) -> Seq<char> {
    json_text(JsonView::Object(seq![("data"@, data), ("ok"@, JsonView::Bool(true))]))
}

/// The answer to a data call that failed with the message `msg`.
pub open spec fn error_response(msg: Seq<char>) -> Seq<char> {
    json_text(JsonView::Object(seq![("msg"@, JsonView::String(msg)), ("ok"@, JsonView::Bool(false))]))
}

/// The answer to a data call that succeeded with `data`.
fn respond_ok(data: Json) -> (r: String)
    ensures
        r@ == ok_response(data@),
{
    let ghost d = data@;
    let mut entries: Vec<(String, Json)> = Vec::new();
    entries.push((copy_str("data"), data));
    entries.push((copy_str("ok"), Json::Bool(true)));
    let answer = Json::object(entries);
    proof {
        assert(answer@->Object_0 =~= seq![("data"@, d), ("ok"@, JsonView::Bool(true))]);
    }
    answer.render()
}

/// The answer to a data call that failed with the message `msg`.
fn respond_error(msg: String) -> (r: String)
    ensures
        r@ == error_response(msg@),
{
    let ghost m = msg@;
    let mut entries: Vec<(String, Json)> = Vec::new();
    entries.push((copy_str("msg"), Json::string(msg)));
    entries.push((copy_str("ok"), Json::Bool(false)));
    let answer = Json::object(entries);
    proof {
        assert(answer@->Object_0 =~= seq![
            ("msg"@, JsonView::String(m)),
            ("ok"@, JsonView::Bool(false)),
        ]);
    }
    answer.render()
}

/// The values of a list of rows.
pub open spec fn rows_view(rows: Seq<Vec<Json>>) -> Seq<Seq<JsonView>> {
    Seq::new(rows.len(), |i: int| json_views(rows[i]@))
}

/// Rows as a JSON array of arrays.
pub open spec fn rows_as_arrays(rows: Seq<Seq<JsonView>>) -> JsonView {
    JsonView::Array(Seq::new(rows.len(), |i: int| JsonView::Array(rows[i])))
}

/// The answer of the host to `sql_exec`: the number of rows affected, or
/// the failure's message.
pub fn ext_sql_exec(outcome: Result<i64, String>) -> (r: String)
    ensures
        r@ == match outcome {
            Ok(n) => ok_response(JsonView::Number(decimal(n as int))),
            Err(msg) => error_response(msg@),
        },
{
    match outcome {
        Ok(n) => respond_ok(Json::integer(n)),
        Err(msg) => respond_error(msg),
    }
}

/// The answer of the host to `custom_sql_exec`: the number of rows
/// affected, or the failure's message.
pub fn ext_custom_sql_exec(outcome: Result<i64, String>) -> (r: String)
    ensures
        r@ == match outcome {
            Ok(n) => ok_response(JsonView::Number(decimal(n as int))),
            Err(msg) => error_response(msg@),
        },
{
    ext_sql_exec(outcome)
}

/// The answer of the host to `sql_query`: the rows, each an object that
/// maps column names to values, or the failure's message.
pub fn ext_sql_query(outcome: Result<Vec<Json>, String>) -> (r: String)
    ensures
        r@ == match outcome {
            Ok(rows) => ok_response(JsonView::Array(json_views(rows@))),
            Err(msg) => error_response(msg@),
        },
{
    match outcome {
        Ok(rows) => respond_ok(Json::array(rows)),
        Err(msg) => respond_error(msg),
    }
}

/// The answer of the host to `custom_sql_query`: the rows, each an array
/// of values, or the failure's message.
pub fn ext_custom_sql_query(outcome: Result<Vec<Vec<Json>>, String>) -> (r: String)
    ensures
        r@ == match outcome {
            Ok(rows) => ok_response(rows_as_arrays(rows_view(rows@))),
            Err(msg) => error_response(msg@),
        },
{
    match outcome {
        Ok(rows) => {
            let ghost all = rows@;
            let mut items: Vec<Json> = Vec::new();
            for row in it: rows
                invariant
                    it.seq() == all,
                    items@.len() == it.index(),
                    forall|k: int|
                        0 <= k < items@.len() ==> (#[trigger] items@[k])@ == JsonView::Array(
                            json_views(all[k]@),
                        ),
            {
                items.push(Json::array(row));
            }
            proof {
                assert(json_views(items@) =~= rows_as_arrays(rows_view(all))->Array_0);
            }
            respond_ok(Json::array(items))
        },
        Err(msg) => respond_error(msg),
    }
}

/// The bytes of `text` and the zero byte after it, as they lie in memory.
pub fn cstring(text: &str) -> (r: Vec<u8>)
    ensures
        r@ == encode_utf8(text@).push(0u8),
{
    let mut bytes = text.as_bytes_vec();
    bytes.push(0);
    bytes
}

/// The size of the buffer that holds `text` and the zero byte after it,
/// where a `u64` can hold it.
pub fn buffer_size(text: &str) -> (r: Option<u64>)
    ensures
        match r {
            Some(size) => size == encode_utf8(text@).len() + 1,
            None => encode_utf8(text@).len() + 1 > u64::MAX,
        },
{
    let n = text.as_bytes().len();
    if n as u64 >= u64::MAX {
        None
    } else {
        Some(n as u64 + 1)
    }
}

/// Whether the host can reach a guest's linear memory through a store:
/// the guest lives in the store and exports its memory under the name
/// `memory`.
pub open spec fn has_memory(store: wasmer::Store, guest: wasmer::Instance) -> bool {
    usable(store, guest) && lists(exports_of(guest), "memory"@, ExternKind::Memory)
}

/// The bytes of a guest's linear memory.
pub open spec fn guest_memory(store: wasmer::Store, guest: wasmer::Instance) -> Seq<u8> {
    memory_of(store, guest, "memory"@)
}

/// Reads the text at `ptr` in the guest's memory: the bytes up to the
/// first zero byte, decoded leniently. Fails where the guest's memory
/// cannot be reached, and where `ptr` lies outside it.
pub fn str_mem_read(store: &wasmer::Store, guest: &wasmer::Instance, ptr: usize) -> (r: Result<
    String,
    AbiError,
>)
    ensures
        match r {
            Ok(s) => has_memory(*store, *guest) && text_at(
                guest_memory(*store, *guest),
                ptr as int,
            ) == Ok::<Seq<char>, AbiError>(s@),
            Err(e) => if has_memory(*store, *guest) {
                text_at(guest_memory(*store, *guest), ptr as int) == Err::<Seq<char>, AbiError>(e)
            } else {
                e == AbiError::MissingExport
            },
        },
{
    if !is_usable(store, guest) {
        return Err(AbiError::MissingExport);
    }
    let size = match memory_size(store, guest, "memory") {
        Some(size) => size,
        None => {
            return Err(AbiError::MissingExport);
        },
    };
    if ptr as u64 > size {
        return Err(AbiError::Decode);
    }
    let ghost mem = guest_memory(*store, *guest);
    let mut bytes: Vec<u8> = Vec::new();
    let mut at: u64 = ptr as u64;
    let mut found = false;
    proof {
        assert(bytes@ =~= mem.subrange(ptr as int, at as int));
    }
    while !found && at < size
        invariant
            usable(*store, *guest),
            lists(exports_of(*guest), "memory"@, ExternKind::Memory),
            mem == guest_memory(*store, *guest),
            ptr <= at <= size == mem.len(),
            found ==> bytes@ == cstring_bytes(mem, ptr as int),
            !found ==> bytes@ == mem.subrange(ptr as int, at as int) && nul_at(mem, ptr as int)
                == nul_at(mem, at as int),
        decreases size - at + (if found { 0int } else { 1int }),
    {
        let end = if size - at > 4096 {
            at + 4096
        } else {
            size
        };
        let chunk = match memory_range(store, guest, "memory", at, end) {
            Some(chunk) => chunk,
            None => {
                return Err(AbiError::MissingExport);
            },
        };
        let mut k: usize = 0;
        while k < chunk.len() && chunk[k] != 0
            invariant
                k <= chunk@.len(),
                forall|j: int| 0 <= j < k ==> chunk@[j] != 0,
            decreases chunk@.len() - k,
        {
            k += 1;
        }
        let ghost before = bytes@;
        bytes.extend_from_slice(slice_subrange(chunk.as_slice(), 0, k));
        proof {
            assert forall|i: int| at <= i < at + k implies mem[i] != 0 by {
                assert(mem[i] == chunk@[i - at]);
            }
            lemma_nul_later(mem, at as int, at + k);
            assert(bytes@ =~= mem.subrange(ptr as int, at + k));
            if k < chunk@.len() {
                assert(mem[at + k] == chunk@[k as int]);
                lemma_nul_found(mem, at as int, at + k);
            }
        }
        if k < chunk.len() {
            found = true;
        } else {
            at = end;
        }
    }
    proof {
        if !found {
            assert(nul_at(mem, at as int) == mem.len());
        }
    }
    let text = from_utf8_lossy(bytes.as_slice());
    Ok(text)
}

/// Writes `text` and a zero byte at `ptr` in the guest's memory. Where the
/// guest's memory cannot be reached, or the text does not fit at `ptr`,
/// nothing is written.
pub fn str_mem_write(store: &mut wasmer::Store, guest: &wasmer::Instance, ptr: usize, text: &str)
    -> (r: Result<(), AbiError>)
    ensures
        usable(*final(store), *guest) == usable(*old(store), *guest),
        match r {
            Ok(()) => has_memory(*old(store), *guest) && fits(
                guest_memory(*old(store), *guest),
                ptr as int,
                text@,
            ) && guest_memory(*final(store), *guest) == written(
                guest_memory(*old(store), *guest),
                ptr as int,
                text@,
            ),
            Err(e) => guest_memory(*final(store), *guest) == guest_memory(*old(store), *guest) && (
            if has_memory(*old(store), *guest) {
                e == AbiError::Allocation && !fits(
                    guest_memory(*old(store), *guest),
                    ptr as int,
                    text@,
                )
            } else {
                e == AbiError::MissingExport
            }),
        },
{
    if !is_usable(store, guest) {
        return Err(AbiError::MissingExport);
    }
    let bytes = cstring(text);
    let ghost before = guest_memory(*store, *guest);
    match memory_write(store, guest, "memory", ptr as u64, bytes.as_slice()) {
        Ok(()) => {
            proof {
                assert(guest_memory(*store, *guest) =~= written(before, ptr as int, text@));
            }
            Ok(())
        },
        Err(e) => Err(e),
    }
}

/// Whether the guest exports the function `name`.
fn has_function(guest: &wasmer::Instance, name: &str) -> (r: bool)
    ensures
        r == lists(exports_of(*guest), name@, ExternKind::Function),
{
    let listed = export_list(guest);
    let ghost all = exports_of(*guest);
    let mut i: usize = 0;
    while i < listed.len()
        invariant
            i <= listed@.len(),
            all == exports_of(*guest),
            listed@.len() == all.len(),
            forall|k: int| 0 <= k < listed@.len() ==> ((#[trigger] listed@[k]).0@, listed@[k].1)
                == all[k],
            forall|k: int| 0 <= k < i ==> all[k] != (name@, ExternKind::Function),
        decreases listed@.len() - i,
    {
        assert(all[i as int] == (listed@[i as int].0@, listed@[i as int].1));
        if listed[i].1 == ExternKind::Function && str_eq(listed[i].0.as_str(), name) {
            assert(all[i as int] == (name@, ExternKind::Function));
            return true;
        }
        i += 1;
    }
    false
}

/// Whether a call of the function `f` of a guest can begin: whether the
/// guest lives in the store and exports the function, the allocator and
/// its memory.
pub open spec fn reachable(store: wasmer::Store, guest: wasmer::Instance, f: Seq<char>) -> bool {
    &&& has_memory(store, guest)
    &&& lists(exports_of(guest), f, ExternKind::Function)
    &&& lists(exports_of(guest), "str_malloc"@, ExternKind::Function)
}

/// Asks the guest's allocator `str_malloc` for a buffer of `size` bytes, and
/// hands back the buffer's address. A guest that cannot be reached, or
/// that has no function `str_malloc` from a size to an address, is missing
/// an export: nothing of it runs, and its memory stays. An allocator that
/// traps is a failure of the allocation.
pub fn alloc_guest(store: &mut wasmer::Store, guest: &wasmer::Instance, size: u64) -> (r: Result<
    u32,
    AbiError,
>)
    ensures
        usable(*final(store), *guest) == usable(*old(store), *guest),
        !usable(*old(store), *guest) || !lists(
            exports_of(*guest),
            "str_malloc"@,
            ExternKind::Function,
        ) ==> r == Err::<u32, AbiError>(AbiError::MissingExport),
        match r {
            Ok(_) => usable(*old(store), *guest) && lists(
                exports_of(*guest),
                "str_malloc"@,
                ExternKind::Function,
            ),
            Err(e) => if e == AbiError::Allocation {
                usable(*old(store), *guest) && lists(
                    exports_of(*guest),
                    "str_malloc"@,
                    ExternKind::Function,
                )
            } else {
                e == AbiError::MissingExport && guest_memory(*final(store), *guest)
                    == guest_memory(*old(store), *guest)
            },
        },
{
    if !is_usable(store, guest) {
        return Err(AbiError::MissingExport);
    }
    match call_with_size(store, guest, "str_malloc", size) {
        Ok(buffer) => Ok(buffer),
        Err(AbiError::MissingExport) => Err(AbiError::MissingExport),
        Err(_) => Err(AbiError::Allocation),
    }
}

/// Calls the guest function `f` with the arguments `args`, across the
/// boundary: the request, which is the arguments wrapped under `body`, goes
/// into a buffer that the guest's allocator `str_malloc` gives for exactly
/// the request and the zero byte after it; the function is called on the
/// buffer; and the text at the address it returns is read as JSON.
///
/// Each failure has its own error, and no failure is a panic:
/// - a guest that cannot be reached, or that does not export the function
///   `f`, the allocator or its memory, is missing an export; nothing of the
///   guest runs then, and its memory stays;
/// - an allocator that traps, or that gives a buffer outside the memory,
///   fails the allocation;
/// - a function that traps is a trap;
/// - an address returned that lies outside the memory fails the decoding,
///   and a text returned that is not JSON fails the parsing: these are the
///   failures of reading at an address in the memory after the call.
///
/// Whether the allocator or the function traps, and what the function
/// returns, the guest decides. A result is the JSON value of a text that
/// lies in the guest's memory after the call.
pub fn call_wasm(store: &mut wasmer::Store, guest: &wasmer::Instance, f: String, args: &Json)
    -> (r: Result<Json, AbiError>)
    ensures
        usable(*final(store), *guest) == usable(*old(store), *guest),
        !reachable(*old(store), *guest, f@) ==> r == Err::<Json, AbiError>(
            AbiError::MissingExport,
        ) && guest_memory(*final(store), *guest) == guest_memory(*old(store), *guest),
        match r {
            Ok(value) => has_memory(*final(store), *guest) && exists|ptr: int| #[trigger]
                result_at(guest_memory(*final(store), *guest), ptr) == Ok::<
                    JsonView,
                    AbiError,
                >(value@),
            Err(e) => e == AbiError::Parse || e == AbiError::Decode ==> has_memory(
                *final(store),
                *guest,
            ) && exists|ptr: int| #[trigger]
                result_at(guest_memory(*final(store), *guest), ptr) == Err::<
                    JsonView,
                    AbiError,
                >(e),
        },
{
    if !is_usable(store, guest) {
        return Err(AbiError::MissingExport);
    }
    if !has_function(guest, f.as_str()) {
        return Err(AbiError::MissingExport);
    }
    if !has_function(guest, "str_malloc") {
        return Err(AbiError::MissingExport);
    }
    if memory_size(store, guest, "memory").is_none() {
        return Err(AbiError::MissingExport);
    }
    let plan = match CallPlan::new(f, args) {
        Ok(plan) => plan,
        Err(e) => {
            return Err(e);
        },
    };
    let buffer = match alloc_guest(store, guest, plan.size) {
        Ok(buffer) => buffer,
        Err(e) => {
            return Err(e);
        },
    };
    match str_mem_write(store, guest, buffer as usize, plan.request.as_str()) {
        Ok(()) => {},
        Err(e) => {
            return Err(e);
        },
    }
    let returned = match call_with_pointer(store, guest, plan.function.as_str(), buffer) {
        Ok(returned) => returned,
        Err(e) => {
            return Err(e);
        },
    };
    let text = match str_mem_read(store, guest, returned as usize) {
        Ok(text) => text,
        Err(e) => {
            proof {
                assert(result_at(guest_memory(*store, *guest), returned as int) == Err::<
                    JsonView,
                    AbiError,
                >(e));
            }
            return Err(e);
        },
    };
    match Json::parse(text.as_str()) {
        Some(value) => {
            proof {
                assert(result_at(guest_memory(*store, *guest), returned as int) == Ok::<
                    JsonView,
                    AbiError,
                >(value@));
            }
            Ok(value)
        },
        None => {
            proof {
                assert(result_at(guest_memory(*store, *guest), returned as int) == Err::<
                    JsonView,
                    AbiError,
                >(AbiError::Parse));
            }
            Err(AbiError::Parse)
        },
    }
}

} // verus!
