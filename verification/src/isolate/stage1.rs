//! The user namespace.

use crate::text::{decimal, decimal_text};
use vstd::prelude::*;
use vstd::utf8::encode_utf8;

verus! {

/// Why a user namespace is not made.
#[derive(Debug, Clone, Copy, PartialEq, Eq, Structural)]
pub enum Stage1Refusal {
    /// The user is the superuser.
    GetUid,
    /// The group is the superuser's.
    GetGid,
}

/// A file that maps ids of the namespace.
#[derive(Debug, Clone, Copy, PartialEq, Eq, Structural)]
pub enum IdFile {
    SetGroups,
    UidMap,
    GidMap,
}

/// The files to write inside the namespace, in order, each with its content.
#[derive(Debug)]
pub struct UserNs {
    pub uid: u32,
    pub gid: u32,
    pub writes: Vec<(IdFile, Vec<u8>)>,
}

/// The line that maps an id to itself.
pub open spec fn id_map_text(id: u32) -> Seq<u8> {
    decimal_text(id as nat) + seq![32u8] + decimal_text(id as nat) + seq![32u8, 49, 10]
}

/// What is written to a file, for a user and a group.
pub open spec fn id_file_text(file: IdFile, uid: u32, gid: u32) -> Seq<u8> {
    match file {
        IdFile::SetGroups => encode_utf8("deny\n"@),
        IdFile::UidMap => id_map_text(uid),
        IdFile::GidMap => id_map_text(gid),
    }
}

/// The order in which the files are written: groups are given up before ids are
/// mapped.
pub open spec fn id_file_order() -> Seq<IdFile> {
    seq![IdFile::SetGroups, IdFile::UidMap, IdFile::GidMap]
}

/// Writes the line that maps an id to itself.
pub fn id_map(id: u32) -> (r: Vec<u8>)
    ensures
        r@ == id_map_text(id),
{
    let digits = decimal(id as u64);
    let mut line: Vec<u8> = Vec::new();
    line.extend_from_slice(digits.as_slice());
    line.push(32);
    line.extend_from_slice(digits.as_slice());
    line.push(32);
    line.push(49);
    line.push(10);
    assert(line@ =~= id_map_text(id));
    line
}

/// The path of a file that maps ids.
pub fn id_file_path(file: IdFile) -> (r: &'static str)
    ensures
        r@ == (match file {
            IdFile::SetGroups => "/proc/self/setgroups"@,
            IdFile::UidMap => "/proc/self/uid_map"@,
            IdFile::GidMap => "/proc/self/gid_map"@,
        }),
{
    match file {
        IdFile::SetGroups => "/proc/self/setgroups",
        IdFile::UidMap => "/proc/self/uid_map",
        IdFile::GidMap => "/proc/self/gid_map",
    }
}

/// Whether a result is the plan of a user namespace for a user and a group.
pub open spec fn is_user_ns(uid: u32, gid: u32, r: Result<UserNs, Stage1Refusal>) -> bool {
    match r {
        Ok(ns) => {
            &&& uid != 0
            &&& gid != 0
            &&& ns.uid == uid
            &&& ns.gid == gid
            &&& ns.writes@.len() == id_file_order().len()
            &&& forall|i: int|
                0 <= i < ns.writes@.len() ==> {
                    &&& (#[trigger] ns.writes@[i]).0 == id_file_order()[i]
                    &&& ns.writes@[i].1@ == id_file_text(ns.writes@[i].0, uid, gid)
                }
        },
        Err(e) => if uid == 0 {
            e == Stage1Refusal::GetUid
        } else {
            gid == 0 && e == Stage1Refusal::GetGid
        },
    }
}

/// A user namespace is planned exactly for a user and a group that are not the
/// superuser's.  Groups are given up first; then the user and the group are mapped to
/// themselves, one number each.
pub proof fn law_ids_map_to_themselves(uid: u32, gid: u32, r: Result<UserNs, Stage1Refusal>)
    requires
        is_user_ns(uid, gid, r),
    ensures
        r is Ok <==> uid != 0 && gid != 0,
        uid == 0 ==> r == Err::<UserNs, Stage1Refusal>(Stage1Refusal::GetUid),
        uid != 0 && gid == 0 ==> r == Err::<UserNs, Stage1Refusal>(Stage1Refusal::GetGid),
        r matches Ok(ns) ==> {
            let w = ns.writes@;
            &&& w.len() == 3
            &&& w[0].0 is SetGroups
            &&& w[0].1@ == encode_utf8("deny\n"@)
            &&& w[1].0 is UidMap
            &&& w[1].1@ == decimal_text(uid as nat).push(32) + decimal_text(uid as nat) + seq![32u8, 49, 10]
            &&& w[2].0 is GidMap
            &&& w[2].1@ == decimal_text(gid as nat).push(32) + decimal_text(gid as nat) + seq![32u8, 49, 10]
        },
{
    if let Ok(ns) = r {
        let w = ns.writes@;
        assert(w[0].0 == id_file_order()[0] && w[1].0 == id_file_order()[1] && w[2].0
            == id_file_order()[2]);
        assert(w[1].1@ =~= decimal_text(uid as nat).push(32) + decimal_text(uid as nat) + seq![
            32u8,
            49,
            10,
        ]);
        assert(w[2].1@ =~= decimal_text(gid as nat).push(32) + decimal_text(gid as nat) + seq![
            32u8,
            49,
            10,
        ]);
    }
}

/// Plans a user namespace for a user and a group, neither of them the superuser's;
/// the user is looked at first.
pub fn create_user_ns(uid: u32, gid: u32) -> (r: Result<UserNs, Stage1Refusal>)
    ensures
        is_user_ns(uid, gid, r),
{
    if uid == 0 {
        return Err(Stage1Refusal::GetUid);
    }
    if gid == 0 {
        return Err(Stage1Refusal::GetGid);
    }
    let mut writes: Vec<(IdFile, Vec<u8>)> = Vec::new();
    let mut deny: Vec<u8> = Vec::new();
    deny.extend_from_slice("deny\n".as_bytes());
    assert(deny@ =~= encode_utf8("deny\n"@));
    writes.push((IdFile::SetGroups, deny));
    writes.push((IdFile::UidMap, id_map(uid)));
    writes.push((IdFile::GidMap, id_map(gid)));
    Ok(UserNs { uid, gid, writes })
}

} // verus!
