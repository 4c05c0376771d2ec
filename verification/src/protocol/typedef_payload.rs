//! Type-definition payloads.
//!
//! Type definitions are events that declare things the rest of the stream
//! refers to by short IDs: a task bound to its executor, a function or scope
//! monitor, or a value monitor with its numeric type. Names are
//! NUL-terminated ASCII of at most 20 bytes.
//!
//! Contracts speak of payloads through [`TypeDefView`], the mathematical
//! image of a payload in which names are character sequences.

use vstd::prelude::*;

use crate::ascii::{spec_ascii_bytes, string_from_ascii, wf_name, MAX_NAME_LEN};
use crate::buffer::{BufferReader, BufferWriter, BUFFER_CAPACITY};
use crate::protocol::{read_u32_le, spec_le4, spec_u32_of, write_u32_le, DecodeError};
use vstd::string::StringSliceAdditionalSpecFns;

verus! {

/// One type-definition payload.
#[derive(Debug, Clone, PartialEq, Eq)]
pub enum TypeDefinitionPayload {
    /// A new task was created: the full 32-bit task address, the executor's
    /// full address, and the executor's 3-bit short ID.
    EmbassyTaskCreated { task_id: u32, executor_id_long: u32, executor_id_short: u8 },
    /// A task ended and will not be scheduled again; same fields as creation.
    EmbassyTaskEnded { task_id: u32, executor_id_long: u32, executor_id_short: u8 },
    /// A new function monitor: the monitored function's address, resolved to
    /// a name on the host.
    FunctionMonitor { monitor_id: u8, fn_address: u32 },
    /// A new scope monitor with its literal name.
    ScopeMonitor { monitor_id: u8, name: String },
    /// A new value monitor with its numeric type tag and its name.
    ValueMonitor { value_id: u8, type_id: u8, name: String },
}

/// The mathematical image of a type definition: names as character
/// sequences.
pub enum TypeDefView {
    TaskCreated { task_id: u32, executor_id_long: u32, executor_id_short: u8 },
    TaskEnded { task_id: u32, executor_id_long: u32, executor_id_short: u8 },
    FunctionMonitor { monitor_id: u8, fn_address: u32 },
    ScopeMonitor { monitor_id: u8, name: Seq<char> },
    ValueMonitor { value_id: u8, type_id: u8, name: Seq<char> },
}

impl View for TypeDefinitionPayload {
    type V = TypeDefView;

    open spec fn view(&self) -> TypeDefView {
        match self {
            TypeDefinitionPayload::EmbassyTaskCreated {
                task_id,
                executor_id_long,
                executor_id_short,
            } => TypeDefView::TaskCreated {
                task_id: *task_id,
                executor_id_long: *executor_id_long,
                executor_id_short: *executor_id_short,
            },
            TypeDefinitionPayload::EmbassyTaskEnded {
                task_id,
                executor_id_long,
                executor_id_short,
            } => TypeDefView::TaskEnded {
                task_id: *task_id,
                executor_id_long: *executor_id_long,
                executor_id_short: *executor_id_short,
            },
            TypeDefinitionPayload::FunctionMonitor { monitor_id, fn_address } => {
                TypeDefView::FunctionMonitor {
                    monitor_id: *monitor_id,
                    fn_address: *fn_address,
                }
            },
            TypeDefinitionPayload::ScopeMonitor { monitor_id, name } => TypeDefView::ScopeMonitor {
                monitor_id: *monitor_id,
                name: name@,
            },
            TypeDefinitionPayload::ValueMonitor { value_id, type_id, name } => {
                TypeDefView::ValueMonitor {
                    value_id: *value_id,
                    type_id: *type_id,
                    name: name@,
                }
            },
        }
    }
}

/// The wire sub-kind byte of a type definition.
pub open spec fn spec_typedef_id(t: TypeDefView) -> u8 {
    match t {
        TypeDefView::TaskCreated { .. } => 0,
        TypeDefView::TaskEnded { .. } => 1,
        TypeDefView::FunctionMonitor { .. } => 2,
        TypeDefView::ScopeMonitor { .. } => 3,
        TypeDefView::ValueMonitor { .. } => 4,
    }
}

/// A type definition the protocol can carry: executor short IDs fit in 3
/// bits and names are well-formed.
pub open spec fn wf_typedef(t: TypeDefView) -> bool {
    match t {
        TypeDefView::TaskCreated { executor_id_short, .. } => executor_id_short < 8,
        TypeDefView::TaskEnded { executor_id_short, .. } => executor_id_short < 8,
        TypeDefView::FunctionMonitor { .. } => true,
        TypeDefView::ScopeMonitor { name, .. } => wf_name(name),
        TypeDefView::ValueMonitor { name, .. } => wf_name(name),
    }
}

/// The wire bytes of a type definition: the sub-kind byte followed by its
/// fields, names NUL-terminated.
pub open spec fn spec_typedef_bytes(t: TypeDefView) -> Seq<u8> {
    seq![spec_typedef_id(t)] + match t {
        TypeDefView::TaskCreated { task_id, executor_id_long, executor_id_short } => spec_le4(
            task_id,
        ) + spec_le4(executor_id_long) + seq![executor_id_short],
        TypeDefView::TaskEnded { task_id, executor_id_long, executor_id_short } => spec_le4(
            task_id,
        ) + spec_le4(executor_id_long) + seq![executor_id_short],
        TypeDefView::FunctionMonitor { monitor_id, fn_address } => seq![monitor_id] + spec_le4(
            fn_address,
        ),
        TypeDefView::ScopeMonitor { monitor_id, name } => seq![monitor_id] + spec_ascii_bytes(name)
            + seq![0u8],
        TypeDefView::ValueMonitor { value_id, type_id, name } => seq![value_id, type_id]
            + spec_ascii_bytes(name) + seq![0u8],
    }
}

/// A well-formed type definition never takes more than 24 wire bytes.
pub proof fn lemma_typedef_len_bound(t: TypeDefView)
    requires
        wf_typedef(t),
    ensures
        spec_typedef_bytes(t).len() <= 1 + 2 + MAX_NAME_LEN + 1,
{
}

/// Reading a NUL-terminated ASCII name from the front of `bytes`: the name's
/// characters and the bytes consumed including the terminator, a
/// truncated-input failure when no terminator is in sight, or a corrupt-frame
/// failure on a byte outside ASCII.
pub open spec fn spec_read_name(bytes: Seq<u8>) -> Result<(Seq<char>, int), DecodeError>
    decreases bytes.len(),
{
    if bytes.len() == 0 {
        Err(DecodeError::TruncatedInput)
    } else if bytes[0] == 0 {
        Ok((Seq::empty(), 1))
    } else if bytes[0] >= 0x80 {
        Err(DecodeError::CorruptFrame)
    } else {
        match spec_read_name(bytes.skip(1)) {
            Ok((s, n)) => Ok((seq![bytes[0] as char] + s, n + 1)),
            Err(e) => Err(e),
        }
    }
}

/// Name round trip: reading back an encoded name consumes the name and its
/// terminator and recovers the characters.
pub proof fn lemma_name_round_trip(s: Seq<char>, rest: Seq<u8>)
    requires
        forall|i: int| 0 <= i < s.len() ==> '\0' < #[trigger] s[i] <= '\u{7f}',
    ensures
        spec_read_name(spec_ascii_bytes(s) + seq![0u8] + rest) == Ok::<_, DecodeError>(
            (s, s.len() as int + 1),
        ),
    decreases s.len(),
{
    let all = spec_ascii_bytes(s) + seq![0u8] + rest;
    if s.len() == 0 {
        assert(all[0] == 0);
        assert(s =~= Seq::<char>::empty());
    } else {
        assert('\0' < s[0] <= '\u{7f}');
        assert(all[0] == s[0] as u8);
        assert((s[0] as u8) > 0 && (s[0] as u8) < 0x80);
        assert((s[0] as u8) as char == s[0]);
        lemma_name_round_trip(s.skip(1), rest);
        assert(all.skip(1) =~= spec_ascii_bytes(s.skip(1)) + seq![0u8] + rest);
        assert(seq![all[0] as char] + s.skip(1) =~= s);
    }
}

/// Shifting a read over an already-validated ASCII prefix: reading a name
/// from `bytes` is reading the rest after the prefix, with the prefix's
/// characters in front.
proof fn lemma_read_name_shift(bytes: Seq<u8>, k: int)
    requires
        0 <= k <= bytes.len(),
        forall|j: int| 0 <= j < k ==> 0 < #[trigger] bytes[j] < 0x80,
    ensures
        spec_read_name(bytes) == match spec_read_name(bytes.skip(k)) {
            Ok((s, n)) => Ok::<_, DecodeError>(
                (Seq::new(k as nat, |j: int| bytes[j] as char) + s, k + n),
            ),
            Err(e) => Err(e),
        },
    decreases k,
{
    if k == 0 {
        assert(bytes.skip(0) =~= bytes);
        match spec_read_name(bytes) {
            Ok((s, n)) => {
                assert(Seq::new(0, |j: int| bytes[j] as char) + s =~= s);
            },
            Err(_) => {},
        }
    } else {
        assert(0 < bytes[0] < 0x80);
        lemma_read_name_shift(bytes.skip(1), k - 1);
        assert(bytes.skip(1).skip(k - 1) =~= bytes.skip(k));
        match spec_read_name(bytes.skip(k)) {
            Ok((s, n)) => {
                assert(seq![bytes[0] as char] + (Seq::new(
                    (k - 1) as nat,
                    |j: int| bytes.skip(1)[j] as char,
                ) + s) =~= Seq::new(k as nat, |j: int| bytes[j] as char) + s);
            },
            Err(_) => {},
        }
    }
}

/// Read a NUL-terminated ASCII name from the reader.
fn read_name(reader: &mut BufferReader) -> (r: Result<String, DecodeError>)
    requires
        old(reader).wf(),
    ensures
        final(reader)@ == old(reader)@,
        final(reader).wf(),
        final(reader).spec_position() >= old(reader).spec_position(),
        ({
            let rem = old(reader)@.subrange(old(reader).spec_position(), old(reader)@.len() as int);
            match r {
                Ok(name) => spec_read_name(rem) == Ok::<_, DecodeError>(
                    (name@, final(reader).spec_position() - old(reader).spec_position()),
                ),
                Err(e) => spec_read_name(rem) == Err::<(Seq<char>, int), _>(e),
            }
        }),
{
    let ghost rem = old(reader)@.subrange(old(reader).spec_position(), old(reader)@.len() as int);
    let mut collected: Vec<u8> = Vec::new();
    loop
        invariant
            old(reader).wf(),
            reader.wf(),
            reader@ == old(reader)@,
            old(reader).spec_position() <= reader.spec_position(),
            reader.spec_position() - old(reader).spec_position() == collected@.len(),
            forall|j: int| 0 <= j < collected@.len() ==> 0 < #[trigger] collected@[j] < 0x80,
            collected@ =~= rem.subrange(0, collected@.len() as int),
            rem == old(reader)@.subrange(old(reader).spec_position(), old(reader)@.len() as int),
        decreases reader@.len() - reader.spec_position(),
    {
        let ghost k = collected@.len() as int;
        let b = match reader.read_byte() {
            Some(b) => b,
            None => {
                proof {
                    assert forall|j: int| 0 <= j < k implies 0 < #[trigger] rem[j] < 0x80 by {
                        assert(rem.subrange(0, k)[j] == rem[j]);
                        assert(collected@[j] == rem[j]);
                    }
                    assert(k == rem.len());
                    lemma_read_name_shift(rem, k);
                    assert(rem.skip(k) =~= Seq::<u8>::empty());
                }
                return Err(DecodeError::TruncatedInput);
            },
        };
        proof {
            assert(reader@ == old(reader)@);
            assert(0 <= k < rem.len());
            assert(rem[k] == old(reader)@[old(reader).spec_position() + k]);
            assert(rem[k] == b);
            assert(rem.skip(k)[0] == b);
        }
        if b == 0 {
            let name = string_from_ascii(&collected);
            proof {
                assert forall|j: int| 0 <= j < k implies 0 < #[trigger] rem[j] < 0x80 by {
                    assert(rem.subrange(0, k)[j] == rem[j]);
                    assert(collected@[j] == rem[j]);
                }
                lemma_read_name_shift(rem, k);
                assert forall|j: int| 0 <= j < k implies #[trigger] collected@[j] == rem[j] by {
                    assert(rem.subrange(0, k)[j] == rem[j]);
                }
                assert(name@ =~= Seq::new(k as nat, |j: int| rem[j] as char));
                assert(Seq::new(k as nat, |j: int| rem[j] as char) + Seq::<char>::empty() =~= name@);
            }
            return Ok(name);
        }
        if b >= 0x80 {
            proof {
                assert forall|j: int| 0 <= j < k implies 0 < #[trigger] rem[j] < 0x80 by {
                    assert(rem.subrange(0, k)[j] == rem[j]);
                    assert(collected@[j] == rem[j]);
                }
                lemma_read_name_shift(rem, k);
            }
            return Err(DecodeError::CorruptFrame);
        }
        collected.push(b);
        assert(collected@ =~= rem.subrange(0, collected@.len() as int));
    }
}

/// Reading a type definition from the front of `bytes`: the payload's view
/// and the bytes consumed, or why the read failed.
pub open spec fn spec_read_typedef(bytes: Seq<u8>) -> Result<(TypeDefView, int), DecodeError> {
    if bytes.len() == 0 {
        Err(DecodeError::TruncatedInput)
    } else {
        let sub = bytes[0];
        let body = bytes.skip(1);
        if sub == 0 || sub == 1 {
            if body.len() < 9 {
                Err(DecodeError::TruncatedInput)
            } else if body[8] >= 8 {
                Err(DecodeError::CorruptFrame)
            } else {
                let task_id = spec_u32_of(body[0], body[1], body[2], body[3]);
                let executor_id_long = spec_u32_of(body[4], body[5], body[6], body[7]);
                if sub == 0 {
                    Ok(
                        (
                            TypeDefView::TaskCreated {
                                task_id,
                                executor_id_long,
                                executor_id_short: body[8],
                            },
                            10,
                        ),
                    )
                } else {
                    Ok(
                        (
                            TypeDefView::TaskEnded {
                                task_id,
                                executor_id_long,
                                executor_id_short: body[8],
                            },
                            10,
                        ),
                    )
                }
            }
        } else if sub == 2 {
            if body.len() < 5 {
                Err(DecodeError::TruncatedInput)
            } else {
                Ok(
                    (
                        TypeDefView::FunctionMonitor {
                            monitor_id: body[0],
                            fn_address: spec_u32_of(body[1], body[2], body[3], body[4]),
                        },
                        6,
                    ),
                )
            }
        } else if sub == 3 {
            if body.len() < 1 {
                Err(DecodeError::TruncatedInput)
            } else {
                match spec_read_name(body.skip(1)) {
                    Ok((name, n)) => Ok(
                        (TypeDefView::ScopeMonitor { monitor_id: body[0], name }, 2 + n),
                    ),
                    Err(e) => Err(e),
                }
            }
        } else if sub == 4 {
            if body.len() < 2 {
                Err(DecodeError::TruncatedInput)
            } else {
                match spec_read_name(body.skip(2)) {
                    Ok((name, n)) => Ok(
                        (
                            TypeDefView::ValueMonitor {
                                value_id: body[0],
                                type_id: body[1],
                                name,
                            },
                            3 + n,
                        ),
                    ),
                    Err(e) => Err(e),
                }
            }
        } else {
            Err(DecodeError::UnknownTypeDefinition)
        }
    }
}

/// Type-definition round trip: reading back an encoded well-formed type
/// definition consumes exactly its encoding and recovers it.
pub proof fn lemma_typedef_round_trip(t: TypeDefView, rest: Seq<u8>)
    requires
        wf_typedef(t),
    ensures
        spec_read_typedef(spec_typedef_bytes(t) + rest) == Ok::<_, DecodeError>(
            (t, spec_typedef_bytes(t).len() as int),
        ),
{
    let enc = spec_typedef_bytes(t);
    let all = enc + rest;
    let body = all.skip(1);
    match t {
        TypeDefView::TaskCreated { task_id, executor_id_long, executor_id_short } => {
            assert(all[0] == 0);
            assert forall|i: int| 0 <= i < 4 implies body[i] == spec_le4(task_id)[i] by {
                assert(all[1 + i] == spec_le4(task_id)[i]);
            }
            assert forall|i: int| 0 <= i < 4 implies body[4 + i] == spec_le4(executor_id_long)[i]
                by {
                assert(all[5 + i] == spec_le4(executor_id_long)[i]);
            }
            assert(body[8] == all[9] && all[9] == executor_id_short);
            crate::protocol::lemma_le4_round_trip(task_id);
            crate::protocol::lemma_le4_round_trip(executor_id_long);
        },
        TypeDefView::TaskEnded { task_id, executor_id_long, executor_id_short } => {
            assert(all[0] == 1);
            assert forall|i: int| 0 <= i < 4 implies body[i] == spec_le4(task_id)[i] by {
                assert(all[1 + i] == spec_le4(task_id)[i]);
            }
            assert forall|i: int| 0 <= i < 4 implies body[4 + i] == spec_le4(executor_id_long)[i]
                by {
                assert(all[5 + i] == spec_le4(executor_id_long)[i]);
            }
            assert(body[8] == all[9] && all[9] == executor_id_short);
            crate::protocol::lemma_le4_round_trip(task_id);
            crate::protocol::lemma_le4_round_trip(executor_id_long);
        },
        TypeDefView::FunctionMonitor { monitor_id, fn_address } => {
            assert(all[0] == 2);
            assert(body[0] == all[1] && all[1] == monitor_id);
            assert forall|i: int| 0 <= i < 4 implies body[1 + i] == spec_le4(fn_address)[i] by {
                assert(all[2 + i] == spec_le4(fn_address)[i]);
            }
            crate::protocol::lemma_le4_round_trip(fn_address);
        },
        TypeDefView::ScopeMonitor { monitor_id, name } => {
            assert(all[0] == 3);
            assert(body[0] == all[1] && all[1] == monitor_id);
            assert(body.skip(1) =~= spec_ascii_bytes(name) + seq![0u8] + rest);
            lemma_name_round_trip(name, rest);
        },
        TypeDefView::ValueMonitor { value_id, type_id, name } => {
            assert(all[0] == 4);
            assert(body[0] == all[1] && all[1] == value_id);
            assert(body[1] == all[2] && all[2] == type_id);
            assert(body.skip(2) =~= spec_ascii_bytes(name) + seq![0u8] + rest);
            lemma_name_round_trip(name, rest);
        },
    }
}

impl TypeDefinitionPayload {
    /// The wire sub-kind byte of this type definition.
    pub fn type_id(&self) -> (r: u8)
        ensures
            r == spec_typedef_id(self@),
    {
        match self {
            TypeDefinitionPayload::EmbassyTaskCreated { .. } => 0,
            TypeDefinitionPayload::EmbassyTaskEnded { .. } => 1,
            TypeDefinitionPayload::FunctionMonitor { .. } => 2,
            TypeDefinitionPayload::ScopeMonitor { .. } => 3,
            TypeDefinitionPayload::ValueMonitor { .. } => 4,
        }
    }

    /// Append the type definition's wire bytes to the writer.
    pub fn write_bytes(&self, writer: &mut BufferWriter)
        requires
            wf_typedef(self@),
            old(writer)@.len() + spec_typedef_bytes(self@).len() <= BUFFER_CAPACITY,
        ensures
            final(writer)@ == old(writer)@ + spec_typedef_bytes(self@),
    {
        proof {
            lemma_typedef_len_bound(self@);
        }
        let type_id = self.type_id();
        writer.write_byte(type_id);
        match self {
            TypeDefinitionPayload::EmbassyTaskCreated {
                task_id,
                executor_id_long,
                executor_id_short,
            } => {
                write_u32_le(writer, *task_id);
                write_u32_le(writer, *executor_id_long);
                writer.write_byte(*executor_id_short);
                assert(writer@ =~= old(writer)@ + spec_typedef_bytes(self@));
            },
            TypeDefinitionPayload::EmbassyTaskEnded {
                task_id,
                executor_id_long,
                executor_id_short,
            } => {
                write_u32_le(writer, *task_id);
                write_u32_le(writer, *executor_id_long);
                writer.write_byte(*executor_id_short);
                assert(writer@ =~= old(writer)@ + spec_typedef_bytes(self@));
            },
            TypeDefinitionPayload::FunctionMonitor { monitor_id, fn_address } => {
                writer.write_byte(*monitor_id);
                write_u32_le(writer, *fn_address);
                assert(writer@ =~= old(writer)@ + spec_typedef_bytes(self@));
            },
            TypeDefinitionPayload::ScopeMonitor { monitor_id, name } => {
                writer.write_byte(*monitor_id);
                let name_str = name.as_str();
                proof {
                    crate::ascii::lemma_ascii_str_bytes(name_str);
                }
                writer.write_bytes(name_str.as_bytes());
                writer.write_byte(0);
                assert(writer@ =~= old(writer)@ + spec_typedef_bytes(self@));
            },
            TypeDefinitionPayload::ValueMonitor { value_id, type_id, name } => {
                writer.write_byte(*value_id);
                writer.write_byte(*type_id);
                let name_str = name.as_str();
                proof {
                    crate::ascii::lemma_ascii_str_bytes(name_str);
                }
                writer.write_bytes(name_str.as_bytes());
                writer.write_byte(0);
                assert(writer@ =~= old(writer)@ + spec_typedef_bytes(self@));
            },
        }
    }

    /// Read a type definition from the reader, starting at its sub-kind
    /// byte.
    pub fn from_bytes(reader: &mut BufferReader) -> (r: Result<TypeDefinitionPayload, DecodeError>)
        requires
            old(reader).wf(),
        ensures
            final(reader)@ == old(reader)@,
            final(reader).wf(),
            final(reader).spec_position() >= old(reader).spec_position(),
            ({
                let rem = old(reader)@.subrange(old(reader).spec_position(), old(reader)@.len() as int);
                match r {
                    Ok(t) => spec_read_typedef(rem) == Ok::<_, DecodeError>(
                        (t@, final(reader).spec_position() - old(reader).spec_position()),
                    ),
                    Err(e) => spec_read_typedef(rem) == Err::<(TypeDefView, int), _>(e),
                }
            }),
    {
        let ghost rem = old(reader)@.subrange(old(reader).spec_position(), old(reader)@.len() as int);
        let sub = match reader.read_byte() {
            Some(b) => b,
            None => {
                return Err(DecodeError::TruncatedInput);
            },
        };
        assert(rem[0] == sub);
        let ghost body = rem.skip(1);
        assert(body =~= old(reader)@.subrange(
            old(reader).spec_position() + 1,
            old(reader)@.len() as int,
        ));
        match sub {
            0 | 1 => {
                let task_id = match read_u32_le(reader) {
                    Some(v) => v,
                    None => {
                        return Err(DecodeError::TruncatedInput);
                    },
                };
                let executor_id_long = match read_u32_le(reader) {
                    Some(v) => v,
                    None => {
                        return Err(DecodeError::TruncatedInput);
                    },
                };
                let executor_id_short = match reader.read_byte() {
                    Some(b) => b,
                    None => {
                        return Err(DecodeError::TruncatedInput);
                    },
                };
                assert(body.len() >= 9);
                assert(forall|i: int| 0 <= i < 9 ==> body[i] == rem[1 + i]);
                if executor_id_short >= 8 {
                    return Err(DecodeError::CorruptFrame);
                }
                if sub == 0 {
                    Ok(
                        TypeDefinitionPayload::EmbassyTaskCreated {
                            task_id,
                            executor_id_long,
                            executor_id_short,
                        },
                    )
                } else {
                    Ok(
                        TypeDefinitionPayload::EmbassyTaskEnded {
                            task_id,
                            executor_id_long,
                            executor_id_short,
                        },
                    )
                }
            },
            2 => {
                let monitor_id = match reader.read_byte() {
                    Some(b) => b,
                    None => {
                        return Err(DecodeError::TruncatedInput);
                    },
                };
                let fn_address = match read_u32_le(reader) {
                    Some(v) => v,
                    None => {
                        return Err(DecodeError::TruncatedInput);
                    },
                };
                assert(body.len() >= 5);
                assert(forall|i: int| 0 <= i < 5 ==> body[i] == rem[1 + i]);
                Ok(TypeDefinitionPayload::FunctionMonitor { monitor_id, fn_address })
            },
            3 => {
                let monitor_id = match reader.read_byte() {
                    Some(b) => b,
                    None => {
                        return Err(DecodeError::TruncatedInput);
                    },
                };
                assert(body[0] == rem[1] && body[0] == monitor_id);
                let ghost name_bytes = rem.skip(2);
                assert(name_bytes =~= body.skip(1));
                let name = match read_name(reader) {
                    Ok(n) => n,
                    Err(e) => {
                        proof {
                            assert(name_bytes =~= old(reader)@.subrange(
                                old(reader).spec_position() + 2,
                                old(reader)@.len() as int,
                            ));
                        }
                        return Err(e);
                    },
                };
                proof {
                    assert(name_bytes =~= old(reader)@.subrange(
                        old(reader).spec_position() + 2,
                        old(reader)@.len() as int,
                    ));
                }
                Ok(TypeDefinitionPayload::ScopeMonitor { monitor_id, name })
            },
            4 => {
                let value_id = match reader.read_byte() {
                    Some(b) => b,
                    None => {
                        return Err(DecodeError::TruncatedInput);
                    },
                };
                let type_id = match reader.read_byte() {
                    Some(b) => b,
                    None => {
                        assert(body.len() < 2);
                        return Err(DecodeError::TruncatedInput);
                    },
                };
                assert(body[0] == rem[1] && body[0] == value_id);
                assert(body[1] == rem[2] && body[1] == type_id);
                let ghost name_bytes = rem.skip(3);
                assert(name_bytes =~= body.skip(2));
                let name = match read_name(reader) {
                    Ok(n) => n,
                    Err(e) => {
                        proof {
                            assert(name_bytes =~= old(reader)@.subrange(
                                old(reader).spec_position() + 3,
                                old(reader)@.len() as int,
                            ));
                        }
                        return Err(e);
                    },
                };
                proof {
                    assert(name_bytes =~= old(reader)@.subrange(
                        old(reader).spec_position() + 3,
                        old(reader)@.len() as int,
                    ));
                }
                Ok(TypeDefinitionPayload::ValueMonitor { value_id, type_id, name })
            },
            _ => Err(DecodeError::UnknownTypeDefinition),
        }
    }
}

} // verus!
