//! The connection driver: a blocking request/response client over an
//! abstract byte transport. It performs the three built-in
//! conversations: the hello handshake on connect, lookup (enumerate
//! objects and their method signatures), and invoke (call a method and
//! collect its reply data until the matching status frame).
//!
//! Frames whose sequence number does not match the outstanding request
//! are discarded; a nonzero status code becomes a bus error. The bytes a
//! transport delivers are arbitrary, so the exchange functions state what
//! holds of every outcome: the sequence counter advances by exactly one
//! per exchange, the recorded peer id is untouched, a bus error always
//! carries a nonzero code, and an oversized request is refused before
//! anything is sent. What the driver does with a reply is contracted
//! step by step: the handshake decision, the status verdict, the data
//! payload, and the directory read from a lookup frame are each fixed,
//! for every byte region, by a spec function.

use vstd::prelude::*;
use vstd::slice::slice_to_vec;
use vstd::string::StringSliceAdditionalSpecFns;
use crate::{Error, NoIO, IO};
use crate::blob::{BlobIter, spec_blob_seq};
use crate::tag::spec_align4;
use crate::blobmsg::{BlobMsgType, BlobMsgData, BlobMsgIter, BlobMsgModel, BlobMsgDataModel,
    spec_blobmsg_seq, spec_blobmsg_type_of};
use crate::message::{Message, MessageHeader, MessageType, MessageAttr, MessageAttrModel,
    MessageBuilder, spec_attr_seq, spec_decode_attr, MESSAGE_VERSION_CURRENT};

verus! {

/// Ceiling on frames examined during one driven exchange. Verified loops
/// must terminate, so an exchange that has not finished within this many
/// frames is reported as invalid data rather than waited on forever.
pub const EXCHANGE_FRAME_LIMIT: usize = 0x1_0000;

/// One object in the bus directory.
#[derive(Clone, Debug, PartialEq, Eq)]
pub struct ObjectResult {
    /// The object's path on the bus.
    pub path: String,
    /// The object's numeric handle.
    pub id: u32,
    /// The object's type handle.
    pub ty: u32,
}

/// One method signature of a directory object: the method's name and its
/// argument names, each with the blob-message type the method expects.
#[derive(Clone, Debug, PartialEq, Eq)]
pub struct SignatureResult {
    /// The object the method belongs to.
    pub object: ObjectResult,
    /// The method's name.
    pub name: String,
    /// The argument names and their blob-message types.
    pub args: Vec<(String, BlobMsgType)>,
}

/// The mathematical content of one directory object entry.
pub ghost struct ObjectModel {
    /// The object's path on the bus.
    pub path: Seq<char>,
    /// The object's numeric handle.
    pub id: u32,
    /// The object's type handle.
    pub ty: u32,
}

/// The mathematical content of one method signature entry.
pub ghost struct SignatureModel {
    /// The object the method belongs to.
    pub object: ObjectModel,
    /// The method's name.
    pub name: Seq<char>,
    /// The argument names and their blob-message types.
    pub args: Seq<(Seq<char>, BlobMsgType)>,
}

impl ObjectResult {
    /// The mathematical content this entry stands for.
    pub open spec fn model(self) -> ObjectModel {
        ObjectModel { path: self.path@, id: self.id, ty: self.ty }
    }
}

impl SignatureResult {
    /// The mathematical content this entry stands for.
    pub open spec fn model(self) -> SignatureModel {
        SignatureModel { object: self.object.model(), name: self.name@, args: spec_args_view(self.args@) }
    }
}

/// The argument pairs a collected argument vector stands for.
pub open spec fn spec_args_view(v: Seq<(String, BlobMsgType)>) -> Seq<(Seq<char>, BlobMsgType)> {
    v.map_values(|a: (String, BlobMsgType)| (a.0@, a.1))
}

/// The directory objects a result vector stands for.
pub open spec fn spec_objects(v: Seq<ObjectResult>) -> Seq<ObjectModel> {
    v.map_values(|o: ObjectResult| o.model())
}

/// The method signatures a result vector stands for.
pub open spec fn spec_signatures(v: Seq<SignatureResult>) -> Seq<SignatureModel> {
    v.map_values(|s: SignatureResult| s.model())
}

/// The argument list read from one method table: each named 32-bit
/// integer entry yields the argument's name and the blob-message type its
/// value selects; other entries are skipped.
pub open spec fn spec_sig_args(entries: Seq<BlobMsgModel>) -> Seq<(Seq<char>, BlobMsgType)>
    decreases entries.len(),
{
    if entries.len() == 0 {
        Seq::empty()
    } else {
        let rest = spec_sig_args(entries.drop_first());
        match entries[0].data {
            BlobMsgDataModel::Int32(v) => match entries[0].name {
                Some(n) => seq![(n, spec_blobmsg_type_of(v as u32))] + rest,
                None => rest,
            },
            _ => rest,
        }
    }
}

/// The signature entries read from one signature attribute: each named
/// table yields one method signature with its argument list; other
/// entries are skipped.
pub open spec fn spec_sig_entries(object: ObjectModel, entries: Seq<BlobMsgModel>) -> Seq<
    SignatureModel,
>
    decreases entries.len(),
{
    if entries.len() == 0 {
        Seq::empty()
    } else {
        let rest = spec_sig_entries(object, entries.drop_first());
        match entries[0].data {
            BlobMsgDataModel::Table(t) => match entries[0].name {
                Some(n) => seq![
                    SignatureModel {
                        object,
                        name: n,
                        args: spec_sig_args(spec_blobmsg_seq(spec_blob_seq(t))),
                    },
                ] + rest,
                None => rest,
            },
            _ => rest,
        }
    }
}

/// The directory read from one data frame's attribute sequence. Path, id
/// and type attributes update the tracked object; each signature
/// attribute seen with all three tracked emits the object and its method
/// signatures; a signature before all three, and every other attribute,
/// is skipped.
pub open spec fn spec_directory(
    attrs: Seq<MessageAttrModel>,
    path: Option<Seq<char>>,
    id: Option<u32>,
    ty: Option<u32>,
) -> (Seq<ObjectModel>, Seq<SignatureModel>)
    decreases attrs.len(),
{
    if attrs.len() == 0 {
        (Seq::empty(), Seq::empty())
    } else {
        match attrs[0] {
            MessageAttrModel::ObjPath(p) => spec_directory(attrs.drop_first(), Some(p), id, ty),
            MessageAttrModel::ObjId(v) => spec_directory(attrs.drop_first(), path, Some(v), ty),
            MessageAttrModel::ObjType(v) => spec_directory(attrs.drop_first(), path, id, Some(v)),
            MessageAttrModel::Signature(region) => {
                if path is Some && id is Some && ty is Some {
                    let object = ObjectModel {
                        path: path.unwrap(),
                        id: id.unwrap(),
                        ty: ty.unwrap(),
                    };
                    let sigs = spec_sig_entries(object, spec_blobmsg_seq(spec_blob_seq(region)));
                    let rest = spec_directory(attrs.drop_first(), path, id, ty);
                    (seq![object] + rest.0, sigs + rest.1)
                } else {
                    spec_directory(attrs.drop_first(), path, id, ty)
                }
            },
            _ => spec_directory(attrs.drop_first(), path, id, ty),
        }
    }
}

/// The tracked name view of an optional borrowed string.
spec fn spec_opt_view(o: Option<&str>) -> Option<Seq<char>> {
    match o {
        Some(s) => Some(s@),
        None => None,
    }
}

/// The code of the first status attribute in a decoded attribute
/// sequence, if one is there.
pub open spec fn spec_first_status(attrs: Seq<MessageAttrModel>) -> Option<i32>
    decreases attrs.len(),
{
    if attrs.len() == 0 {
        None
    } else {
        match attrs[0] {
            MessageAttrModel::Status(c) => Some(c),
            _ => spec_first_status(attrs.drop_first()),
        }
    }
}

/// The payload of the first data attribute in a decoded attribute
/// sequence, if one is there.
pub open spec fn spec_first_data(attrs: Seq<MessageAttrModel>) -> Option<Seq<u8>>
    decreases attrs.len(),
{
    if attrs.len() == 0 {
        None
    } else {
        match attrs[0] {
            MessageAttrModel::Data(d) => Some(d),
            _ => spec_first_data(attrs.drop_first()),
        }
    }
}

/// Scans a status frame's attribute region: the first status attribute
/// decides (zero is success, nonzero the bus error); a region without one
/// is invalid data.
#[verifier::loop_isolation(false)]
fn scan_status(region: &[u8]) -> (r: Result<(), Error<NoIO>>)
    ensures
        ({
            let found = spec_first_status(spec_attr_seq(spec_blob_seq(region@)));
            match found {
                Some(c) => (c == 0 ==> r is Ok) && (c != 0 ==> r == Err::<(), Error<NoIO>>(
                    Error::Status(c),
                )),
                None => r matches Err(e) && e is InvalidData,
            }
        }),
        r matches Err(e) ==> e is Status || e is InvalidData,
        r matches Err(Error::Status(c)) ==> c != 0,
{
    let ghost target = spec_first_status(spec_attr_seq(spec_blob_seq(region@)));
    let mut attrs = BlobIter::new(region);
    loop
        invariant
            spec_first_status(spec_attr_seq(spec_blob_seq(attrs.remaining()))) == target,
        decreases attrs.remaining().len(),
    {
        let ghost rem0 = attrs.remaining();
        match attrs.next() {
            None => {
                return Err(Error::InvalidData("invalid status message"));
            },
            Some(b) => match MessageAttr::from_blob(b) {
                Err(_) => {
                    return Err(Error::InvalidData("invalid status message"));
                },
                Ok(MessageAttr::Status(code)) => {
                    proof {
                        assert(spec_attr_seq(spec_blob_seq(rem0))[0] == MessageAttrModel::Status(
                            code,
                        ));
                        assert(target == Some(code));
                    }
                    if code == 0 {
                        return Ok(());
                    } else {
                        return Err(Error::Status(code));
                    }
                },
                Ok(a) => {
                    proof {
                        let s0 = spec_blob_seq(rem0);
                        let am = a.model();
                        assert(spec_attr_seq(s0) == seq![am] + spec_attr_seq(s0.drop_first()));
                        assert((seq![am] + spec_attr_seq(s0.drop_first())).drop_first()
                            =~= spec_attr_seq(s0.drop_first()));
                        assert(spec_first_status(spec_attr_seq(s0)) == spec_first_status(
                            spec_attr_seq(s0.drop_first()),
                        ));
                        assert(spec_blob_seq(attrs.remaining()) =~= s0.drop_first());
                    }
                },
            },
        }
    }
}

/// Finds the payload of the first data attribute in a data frame's
/// attribute region, if one is there.
#[verifier::loop_isolation(false)]
fn find_data_attr<'a>(region: &'a [u8]) -> (r: Option<&'a [u8]>)
    ensures
        ({
            let found = spec_first_data(spec_attr_seq(spec_blob_seq(region@)));
            match r {
                Some(d) => found == Some(d@),
                None => found is None,
            }
        }),
{
    let ghost target = spec_first_data(spec_attr_seq(spec_blob_seq(region@)));
    let mut attrs = BlobIter::new(region);
    loop
        invariant
            spec_first_data(spec_attr_seq(spec_blob_seq(attrs.remaining()))) == target,
        decreases attrs.remaining().len(),
    {
        let ghost rem0 = attrs.remaining();
        match attrs.next() {
            None => {
                return None;
            },
            Some(b) => match MessageAttr::from_blob(b) {
                Err(_) => {
                    return None;
                },
                Ok(MessageAttr::Data(d)) => {
                    proof {
                        assert(spec_attr_seq(spec_blob_seq(rem0))[0] == MessageAttrModel::Data(
                            d@,
                        ));
                        assert(target == Some(d@));
                    }
                    return Some(d);
                },
                Ok(a) => {
                    proof {
                        let s0 = spec_blob_seq(rem0);
                        let am = a.model();
                        assert(spec_attr_seq(s0) == seq![am] + spec_attr_seq(s0.drop_first()));
                        assert((seq![am] + spec_attr_seq(s0.drop_first())).drop_first()
                            =~= spec_attr_seq(s0.drop_first()));
                        assert(spec_first_data(spec_attr_seq(s0)) == spec_first_data(
                            spec_attr_seq(s0.drop_first()),
                        ));
                        assert(spec_blob_seq(attrs.remaining()) =~= s0.drop_first());
                    }
                },
            },
        }
    }
}

/// One parsing step of the directory walk: the head attribute of the
/// region is `am`, and what remains parses to the tail of the attribute
/// sequence.
proof fn step_skip_facts(rem0: Seq<u8>, am: MessageAttrModel, rem1: Seq<u8>)
    requires
        spec_blob_seq(rem0).len() >= 1,
        spec_decode_attr(spec_blob_seq(rem0)[0]) == Some(am),
        spec_blob_seq(rem1) =~= spec_blob_seq(rem0).drop_first(),
    ensures
        spec_attr_seq(spec_blob_seq(rem0)) == seq![am] + spec_attr_seq(spec_blob_seq(rem1)),
        spec_attr_seq(spec_blob_seq(rem0))[0] == am,
        spec_attr_seq(spec_blob_seq(rem0)).len() >= 1,
        spec_attr_seq(spec_blob_seq(rem0)).drop_first() =~= spec_attr_seq(spec_blob_seq(rem1)),
{
    let s0 = spec_blob_seq(rem0);
    assert(spec_attr_seq(s0) == seq![am] + spec_attr_seq(s0.drop_first()));
    assert((seq![am] + spec_attr_seq(spec_blob_seq(rem1))).drop_first() =~= spec_attr_seq(
        spec_blob_seq(rem1),
    ));
}

/// Walks one data frame of a lookup reply and appends exactly the
/// directory that `spec_directory` reads from its attribute sequence:
/// path, id and type attributes update the tracked object, and each
/// signature attribute seen with all three tracked emits the object and
/// one signature entry per named method table in it. Incomplete or
/// malformed entries are skipped, in line with the codec's
/// skip-on-malformed iterators.
#[verifier::loop_isolation(false)]
#[verifier::rlimit(100)]
fn collect_directory<'a>(
    region: &'a [u8],
    objects: &mut Vec<ObjectResult>,
    signatures: &mut Vec<SignatureResult>,
)
    ensures
        ({
            let d = spec_directory(spec_attr_seq(spec_blob_seq(region@)), None, None, None);
            &&& spec_objects(final(objects)@) == spec_objects(old(objects)@) + d.0
            &&& spec_signatures(final(signatures)@) == spec_signatures(old(signatures)@) + d.1
        }),
{
    let ghost full = spec_directory(spec_attr_seq(spec_blob_seq(region@)), None, None, None);
    let ghost obj0 = spec_objects(objects@);
    let ghost sig0 = spec_signatures(signatures@);
    let mut obj_path: Option<&'a str> = None;
    let mut obj_id: Option<u32> = None;
    let mut obj_type: Option<u32> = None;
    let mut attrs = BlobIter::new(region);
    loop
        invariant
            ({
                let d = spec_directory(
                    spec_attr_seq(spec_blob_seq(attrs.remaining())),
                    spec_opt_view(obj_path),
                    obj_id,
                    obj_type,
                );
                &&& spec_objects(objects@) + d.0 == obj0 + full.0
                &&& spec_signatures(signatures@) + d.1 == sig0 + full.1
            }),
        decreases attrs.remaining().len(),
    {
        let ghost rem0 = attrs.remaining();
        let ghost st_path = spec_opt_view(obj_path);
        let b = match attrs.next() {
            None => {
                proof {
                    let d = spec_directory(spec_attr_seq(spec_blob_seq(rem0)), st_path, obj_id,
                        obj_type);
                    assert(spec_objects(objects@) + d.0 =~= spec_objects(objects@));
                    assert(spec_signatures(signatures@) + d.1 =~= spec_signatures(signatures@));
                }
                return ;
            },
            Some(b) => b,
        };
        proof {
            assert(spec_blob_seq(rem0)[0] == b.model());
        }
        match MessageAttr::from_blob(b) {
            Err(_) => {
                proof {
                    let d = spec_directory(spec_attr_seq(spec_blob_seq(rem0)), st_path, obj_id,
                        obj_type);
                    assert(spec_objects(objects@) + d.0 =~= spec_objects(objects@));
                    assert(spec_signatures(signatures@) + d.1 =~= spec_signatures(signatures@));
                }
                return ;
            },
            Ok(MessageAttr::ObjPath(p)) => {
                obj_path = Some(p);
                proof {
                    step_skip_facts(rem0, MessageAttrModel::ObjPath(p@), attrs.remaining());
                }
            },
            Ok(MessageAttr::ObjId(v)) => {
                obj_id = Some(v);
                proof {
                    step_skip_facts(rem0, MessageAttrModel::ObjId(v), attrs.remaining());
                }
            },
            Ok(MessageAttr::ObjType(v)) => {
                obj_type = Some(v);
                proof {
                    step_skip_facts(rem0, MessageAttrModel::ObjType(v), attrs.remaining());
                }
            },
            Ok(MessageAttr::Signature(sig_region)) => {
                proof {
                    step_skip_facts(rem0, MessageAttrModel::Signature(sig_region@),
                        attrs.remaining());
                }
                let (path, id, ty) = match (obj_path, obj_id, obj_type) {
                    (Some(p), Some(i), Some(t)) => (p, i, t),
                    _ => {
                        continue ;
                    },
                };
                let ghost obj_m = ObjectModel { path: path@, id, ty };
                let ghost objs_before = spec_objects(objects@);
                objects.push(ObjectResult { path: path.to_owned(), id, ty });
                proof {
                    assert(spec_objects(objects@) =~= objs_before + seq![obj_m]);
                }
                let ghost sigs_before = spec_signatures(signatures@);
                let ghost sigs_add = spec_sig_entries(obj_m, spec_blobmsg_seq(spec_blob_seq(
                    sig_region@,
                )));
                let mut entries = BlobMsgIter::new(sig_region);
                let mut entries_done = false;
                while !entries_done
                    invariant
                        spec_signatures(signatures@) + spec_sig_entries(obj_m, spec_blobmsg_seq(
                            spec_blob_seq(entries.remaining()),
                        )) == sigs_before + sigs_add,
                        entries_done ==> spec_sig_entries(obj_m, spec_blobmsg_seq(spec_blob_seq(
                            entries.remaining(),
                        ))) == Seq::<SignatureModel>::empty(),
                    decreases entries.remaining().len() + (if entries_done {
                        0int
                    } else {
                        1int
                    }),
                {
                    let ghost erem0 = entries.remaining();
                    let entry = match entries.next() {
                        None => {
                            proof {
                                assert(spec_sig_entries(obj_m, spec_blobmsg_seq(spec_blob_seq(
                                    erem0,
                                ))) =~= Seq::<SignatureModel>::empty());
                            }
                            entries_done = true;
                            continue ;
                        },
                        Some(e) => e,
                    };
                    proof {
                        let bs0 = spec_blob_seq(erem0);
                        assert(spec_blobmsg_seq(bs0) == seq![entry.model()] + spec_blobmsg_seq(
                            bs0.drop_first(),
                        ));
                        assert((seq![entry.model()] + spec_blobmsg_seq(
                            bs0.drop_first(),
                        )).drop_first() =~= spec_blobmsg_seq(bs0.drop_first()));
                        assert(spec_blob_seq(entries.remaining()) =~= bs0.drop_first());
                    }
                    let table = match entry.data {
                        BlobMsgData::Table(t) => t,
                        _ => {
                            continue ;
                        },
                    };
                    let name = match entry.name {
                        Some(n) => n,
                        None => {
                            continue ;
                        },
                    };
                    let mut args: Vec<(String, BlobMsgType)> = Vec::new();
                    let ghost args_target = spec_sig_args(spec_blobmsg_seq(spec_blob_seq(
                        table@,
                    )));
                    let mut fields = BlobMsgIter::new(table);
                    let mut fields_done = false;
                    while !fields_done
                        invariant
                            spec_args_view(args@) + spec_sig_args(spec_blobmsg_seq(spec_blob_seq(
                                fields.remaining(),
                            ))) == args_target,
                            fields_done ==> spec_sig_args(spec_blobmsg_seq(spec_blob_seq(
                                fields.remaining(),
                            ))) == Seq::<(Seq<char>, BlobMsgType)>::empty(),
                        decreases fields.remaining().len() + (if fields_done {
                            0int
                        } else {
                            1int
                        }),
                    {
                        let ghost frem0 = fields.remaining();
                        let field = match fields.next() {
                            None => {
                                proof {
                                    assert(spec_sig_args(spec_blobmsg_seq(spec_blob_seq(frem0)))
                                        =~= Seq::<(Seq<char>, BlobMsgType)>::empty());
                                }
                                fields_done = true;
                                continue ;
                            },
                            Some(f) => f,
                        };
                        proof {
                            let fs0 = spec_blob_seq(frem0);
                            assert(spec_blobmsg_seq(fs0) == seq![field.model()]
                                + spec_blobmsg_seq(fs0.drop_first()));
                            assert((seq![field.model()] + spec_blobmsg_seq(
                                fs0.drop_first(),
                            )).drop_first() =~= spec_blobmsg_seq(fs0.drop_first()));
                            assert(spec_blob_seq(fields.remaining()) =~= fs0.drop_first());
                        }
                        let typeid = match field.data {
                            BlobMsgData::Int32(v) => v,
                            _ => {
                                continue ;
                            },
                        };
                        let fname = match field.name {
                            Some(n) => n,
                            None => {
                                continue ;
                            },
                        };
                        let ghost args_before = spec_args_view(args@);
                        args.push((fname.to_owned(), BlobMsgType::from_u32(#[verifier::truncate] (typeid as u32))));
                        proof {
                            let head = seq![(fname@, spec_blobmsg_type_of(typeid as u32))];
                            assert(spec_args_view(args@) =~= args_before + head);
                            assert(args_before + head + spec_sig_args(spec_blobmsg_seq(
                                spec_blob_seq(fields.remaining()),
                            )) =~= args_before + (head + spec_sig_args(spec_blobmsg_seq(
                                spec_blob_seq(fields.remaining()),
                            ))));
                        }
                    }
                    proof {
                        assert(spec_args_view(args@) + Seq::<(Seq<char>, BlobMsgType)>::empty()
                            =~= spec_args_view(args@));
                    }
                    let ghost sig_m = SignatureModel {
                        object: obj_m,
                        name: name@,
                        args: args_target,
                    };
                    let ghost sigs_now = spec_signatures(signatures@);
                    signatures.push(
                        SignatureResult {
                            object: ObjectResult { path: path.to_owned(), id, ty },
                            name: name.to_owned(),
                            args,
                        },
                    );
                    proof {
                        assert(spec_signatures(signatures@) =~= sigs_now + seq![sig_m]);
                        assert(sigs_now + seq![sig_m] + spec_sig_entries(obj_m, spec_blobmsg_seq(
                            spec_blob_seq(entries.remaining()),
                        )) =~= sigs_now + (seq![sig_m] + spec_sig_entries(obj_m,
                            spec_blobmsg_seq(spec_blob_seq(entries.remaining())))));
                    }
                }
                proof {
                    assert(spec_signatures(signatures@) + Seq::<SignatureModel>::empty()
                        =~= spec_signatures(signatures@));
                    let d0 = spec_directory(spec_attr_seq(spec_blob_seq(rem0)), st_path, obj_id,
                        obj_type);
                    let rest = spec_directory(spec_attr_seq(spec_blob_seq(attrs.remaining())),
                        st_path, obj_id, obj_type);
                    assert(d0.0 =~= seq![obj_m] + rest.0);
                    assert(d0.1 =~= sigs_add + rest.1);
                    assert(objs_before + seq![obj_m] + rest.0 =~= objs_before + (seq![obj_m]
                        + rest.0));
                    assert(sigs_before + sigs_add + rest.1 =~= sigs_before + (sigs_add
                        + rest.1));
                }
            },
            Ok(_) => {
                proof {
                    let s0 = spec_blob_seq(rem0);
                    assert(spec_attr_seq(s0) == seq![spec_attr_seq(s0)[0]] + spec_attr_seq(
                        s0.drop_first(),
                    ));
                    assert((seq![spec_attr_seq(s0)[0]] + spec_attr_seq(
                        s0.drop_first(),
                    )).drop_first() =~= spec_attr_seq(s0.drop_first()));
                    assert(spec_blob_seq(attrs.remaining()) =~= s0.drop_first());
                }
            },
        }
    }
}

/// Decides the handshake: a hello frame yields the peer id the bus
/// assigned, which the connection records; any other first frame is
/// refused.
fn hello_peer(message: &Message) -> (r: Result<u32, Error<NoIO>>)
    ensures
        r is Ok <==> message.header.message is Hello,
        r matches Ok(p) ==> p == message.header.peer,
        r matches Err(e) ==> e is InvalidData,
{
    match message.header.message {
        MessageType::Hello => Ok(message.header.peer),
        _ => Err(Error::InvalidData("expected hello")),
    }
}

/// A client connection to the bus: the transport, the peer id the bus
/// assigned in its hello frame, and the outgoing sequence counter.
pub struct Connection<T: IO> {
    io: T,
    peer: u32,
    sequence: u16,
}

impl<T: IO> Connection<T> {
    /// The peer id recorded from the hello frame.
    pub closed spec fn spec_peer(self) -> u32 {
        self.peer
    }

    /// The outgoing sequence counter.
    pub closed spec fn spec_sequence(self) -> u16 {
        self.sequence
    }

    /// Wraps an already-open transport and consumes the hello frame the
    /// bus sends on connect, recording the assigned peer id; any other
    /// first frame is refused.
    pub fn new(io: T) -> (r: Result<Self, Error<T::Error>>)
        ensures
            r matches Ok(c) ==> c.spec_sequence() == 0,
            r matches Err(e) ==> e is IO || e is InvalidData,
    {
        let mut conn = Connection { io, peer: 0, sequence: 0 };
        let message = match conn.next_message() {
            Ok(m) => m,
            Err(e) => {
                return Err(e);
            },
        };
        let peer = match hello_peer(&message) {
            Ok(p) => p,
            Err(e) => {
                return Err(Error::lift(e));
            },
        };
        conn.peer = peer;
        Ok(conn)
    }

    /// The peer id the bus assigned to this client.
    pub fn peer(&self) -> (r: u32)
        ensures
            r == self.spec_peer(),
    {
        self.peer
    }

    /// Reads the next frame from the bus, blocking until it is complete.
    pub fn next_message(&mut self) -> (r: Result<Message, Error<T::Error>>)
        ensures
            final(self).spec_peer() == old(self).spec_peer(),
            final(self).spec_sequence() == old(self).spec_sequence(),
            r matches Ok(m) ==> m.wf(),
            r matches Err(e) ==> e is IO || e is InvalidData,
    {
        Message::from_io(&mut self.io)
    }

    /// Sends one built frame to the bus.
    pub fn send(&mut self, message: MessageBuilder) -> (r: Result<(), Error<T::Error>>)
        requires
            message.wf(),
        ensures
            final(self).spec_peer() == old(self).spec_peer(),
            final(self).spec_sequence() == old(self).spec_sequence(),
            r matches Err(e) ==> e is IO,
    {
        let bytes = message.finish();
        self.io.put(bytes.as_slice())
    }

    /// Calls a method on an object: sends an invoke frame carrying the
    /// object id, the method name and the caller's already-encoded
    /// argument bytes, then reads frames until the matching status
    /// arrives. The payloads of the exchange's data frames are collected
    /// in order; a nonzero status becomes the bus error. A method name or
    /// argument region that does not fit the request frame's scratch
    /// buffer with its alignment padding, or overruns a tag's size field,
    /// is refused before anything is sent.
    #[verifier::loop_isolation(false)]
    pub fn invoke(&mut self, obj: u32, method: &str, args: &[u8]) -> (r: Result<
        Vec<Vec<u8>>,
        Error<T::Error>,
    >)
        ensures
            final(self).spec_peer() == old(self).spec_peer(),
            final(self).spec_sequence() == ((old(self).spec_sequence() + 1) % 0x1_0000) as u16,
            r matches Err(Error::Status(c)) ==> c != 0,
            ({
                ||| 5 + method.spec_bytes().len() > 0xff_ffff
                ||| 4 + args@.len() > 0xff_ffff
                ||| 20 + spec_align4(5 + method.spec_bytes().len() as int) + spec_align4(
                    4 + args@.len() as int,
                ) > 1024
            }) ==> (r matches Err(e) && e is InvalidData),
    {
        self.sequence = if self.sequence == 0xffff {
            0
        } else {
            self.sequence + 1
        };
        let sequence = self.sequence;
        let header = MessageHeader {
            version: MESSAGE_VERSION_CURRENT,
            message: MessageType::Invoke,
            sequence,
            peer: obj,
        };
        let mut message = match MessageBuilder::new(vec![0u8; 1024], header) {
            Ok(m) => m,
            Err(e) => {
                return Err(Error::lift(e));
            },
        };
        if let Err(e) = message.put(MessageAttr::ObjId(obj)) {
            return Err(Error::lift(e));
        }
        if let Err(e) = message.put(MessageAttr::Method(method)) {
            return Err(Error::lift(e));
        }
        if let Err(e) = message.put(MessageAttr::Data(args)) {
            return Err(Error::lift(e));
        }
        if let Err(e) = self.send(message) {
            return Err(e);
        }
        let mut results: Vec<Vec<u8>> = Vec::new();
        let mut budget: usize = EXCHANGE_FRAME_LIMIT;
        while budget > 0
            invariant
                self.spec_peer() == old(self).spec_peer(),
                self.spec_sequence() == sequence,
            decreases budget,
        {
            budget = budget - 1;
            let message = match self.next_message() {
                Ok(m) => m,
                Err(e) => {
                    return Err(e);
                },
            };
            if message.header.sequence != sequence {
                continue ;
            }
            match message.header.message {
                MessageType::Status => {
                    let blob = match message.blob() {
                        Ok(b) => b,
                        Err(e) => {
                            return Err(Error::lift(e));
                        },
                    };
                    match scan_status(blob.data) {
                        Ok(()) => {
                            return Ok(results);
                        },
                        Err(e) => {
                            return Err(Error::lift(e));
                        },
                    }
                },
                MessageType::Data => {
                    let blob = match message.blob() {
                        Ok(b) => b,
                        Err(e) => {
                            return Err(Error::lift(e));
                        },
                    };
                    match find_data_attr(blob.data) {
                        Some(d) => {
                            results.push(slice_to_vec(d));
                        },
                        None => {
                            return Err(Error::InvalidData("invalid data message"));
                        },
                    }
                },
                _ => {},
            }
        }
        Err(Error::InvalidData("no status frame"))
    }

    /// Enumerates the bus directory: sends a lookup frame, then reads
    /// frames until the matching status arrives. Every signature
    /// attribute in the reply's data frames yields one object entry and
    /// one signature entry per method; a nonzero status becomes the bus
    /// error.
    #[verifier::loop_isolation(false)]
    pub fn lookup(&mut self) -> (r: Result<
        (Vec<ObjectResult>, Vec<SignatureResult>),
        Error<T::Error>,
    >)
        ensures
            final(self).spec_peer() == old(self).spec_peer(),
            final(self).spec_sequence() == ((old(self).spec_sequence() + 1) % 0x1_0000) as u16,
            r matches Err(Error::Status(c)) ==> c != 0,
    {
        self.sequence = if self.sequence == 0xffff {
            0
        } else {
            self.sequence + 1
        };
        let sequence = self.sequence;
        let header = MessageHeader {
            version: MESSAGE_VERSION_CURRENT,
            message: MessageType::Lookup,
            sequence,
            peer: 0,
        };
        let message = match MessageBuilder::new(vec![0u8; 1024], header) {
            Ok(m) => m,
            Err(e) => {
                return Err(Error::lift(e));
            },
        };
        if let Err(e) = self.send(message) {
            return Err(e);
        }
        let mut objects: Vec<ObjectResult> = Vec::new();
        let mut signatures: Vec<SignatureResult> = Vec::new();
        let mut budget: usize = EXCHANGE_FRAME_LIMIT;
        while budget > 0
            invariant
                self.spec_peer() == old(self).spec_peer(),
                self.spec_sequence() == sequence,
            decreases budget,
        {
            budget = budget - 1;
            let message = match self.next_message() {
                Ok(m) => m,
                Err(e) => {
                    return Err(e);
                },
            };
            if message.header.sequence != sequence {
                continue ;
            }
            match message.header.message {
                MessageType::Status => {
                    let blob = match message.blob() {
                        Ok(b) => b,
                        Err(e) => {
                            return Err(Error::lift(e));
                        },
                    };
                    match scan_status(blob.data) {
                        Ok(()) => {
                            return Ok((objects, signatures));
                        },
                        Err(e) => {
                            return Err(Error::lift(e));
                        },
                    }
                },
                MessageType::Data => {
                    let blob = match message.blob() {
                        Ok(b) => b,
                        Err(e) => {
                            return Err(Error::lift(e));
                        },
                    };
                    collect_directory(blob.data, &mut objects, &mut signatures);
                },
                _ => {},
            }
        }
        Err(Error::InvalidData("no status frame"))
    }
}

} // verus!
