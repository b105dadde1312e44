//! The other end of the daemon's socket: how messages are framed and how answers
//! are read.

use crate::error::ClientError;
use crate::path::FsPath;
use crate::syncing::proto::{FileMetadata, FuseEntry, Response};
use vstd::prelude::*;

verus! {

/// The four bytes in front of a message: its length, lowest byte first, counted
/// modulo what four bytes can hold.
pub open spec fn frame_header_of(len: nat) -> Seq<u8> {
    vstd::bytes::spec_u32_to_le_bytes((len % 0x1_0000_0000) as u32)
}

/// The four bytes in front of a message.
pub fn frame_header(data: &[u8]) -> (r: Vec<u8>)
    ensures
        r@ == frame_header_of(data@.len()),
{
    let len: u64 = data.len() as u64;
    let low: u64 = len % 0x1_0000_0000;
    vstd::bytes::u32_to_le_bytes(low as u32)
}

/// How many bytes follow a header.
pub fn frame_length(header: &[u8]) -> (r: u32)
    requires
        header@.len() == 4,
    ensures
        r == vstd::bytes::spec_u32_from_le_bytes(header@),
{
    vstd::bytes::u32_from_le_bytes(header)
}

/// The header of a message that four bytes can count says how long it is.
pub proof fn law_frame_round_trip(len: nat)
    requires
        len < 0x1_0000_0000,
    ensures
        frame_header_of(len).len() == 4,
        vstd::bytes::spec_u32_from_le_bytes(frame_header_of(len)) == len,
{
    vstd::arithmetic::div_mod::lemma_small_mod(len, 0x1_0000_0000);
    vstd::bytes::lemma_auto_spec_u32_to_from_le_bytes();
}

/// What an answer that was not asked for means.
pub open spec fn is_refusal(e: ClientError, response: Response) -> bool {
    match response {
        Response::Error(msg) => e matches ClientError::Server(text) && text@ == msg@,
        _ => e matches ClientError::Server(text) && text@ == "Unexpected response"@,
    }
}

/// What an answer that was not asked for means.
fn refusal(response: Response) -> (r: ClientError)
    ensures
        is_refusal(r, response),
{
    match response {
        Response::Error(msg) => ClientError::Server(msg),
        _ => ClientError::Server(String::from_str("Unexpected response")),
    }
}

/// Reads the answer to a request for a file's object.
pub fn ensure_file_object(response: Response) -> (r: Result<(u64, FsPath), ClientError>)
    ensures
        match response {
            Response::EnsureFileObject { id, path } => r == Ok::<(u64, FsPath), ClientError>(
                (id, path),
            ),
            _ => r matches Err(e) && is_refusal(e, response),
        },
{
    match response {
        Response::EnsureFileObject { id, path } => Ok((id, path)),
        other => Err(refusal(other)),
    }
}

/// Reads the answer to a request for the path of an object.
pub fn get_object_path(response: Response) -> (r: Result<FsPath, ClientError>)
    ensures
        match response {
            Response::GetObjectPath { path } => r == Ok::<FsPath, ClientError>(path),
            Response::NotFound => r == Err::<FsPath, ClientError>(ClientError::NotFound),
            _ => r matches Err(e) && is_refusal(e, response),
        },
{
    match response {
        Response::GetObjectPath { path } => Ok(path),
        Response::NotFound => Err(ClientError::NotFound),
        other => Err(refusal(other)),
    }
}

/// Reads the answer to storing a file entry.
pub fn upsert_file_entry(response: Response) -> (r: Result<(), ClientError>)
    ensures
        match response {
            Response::UpsertFileEntry => r is Ok,
            _ => r matches Err(e) && is_refusal(e, response),
        },
{
    match response {
        Response::UpsertFileEntry => Ok(()),
        other => Err(refusal(other)),
    }
}

/// Reads the answer to storing metadata.
pub fn put_file_meta(response: Response) -> (r: Result<(), ClientError>)
    ensures
        match response {
            Response::PutFileMeta => r is Ok,
            _ => r matches Err(e) && is_refusal(e, response),
        },
{
    match response {
        Response::PutFileMeta => Ok(()),
        other => Err(refusal(other)),
    }
}

/// Reads the answer to a request for metadata.
pub fn get_file_meta(response: Response) -> (r: Result<Option<FileMetadata>, ClientError>)
    ensures
        match response {
            Response::GetFileMeta(meta) => r == Ok::<Option<FileMetadata>, ClientError>(meta),
            _ => r matches Err(e) && is_refusal(e, response),
        },
{
    match response {
        Response::GetFileMeta(meta) => Ok(meta),
        other => Err(refusal(other)),
    }
}

/// Reads the answer to a request for an entry.
pub fn get_entry(response: Response) -> (r: Result<Option<FuseEntry>, ClientError>)
    ensures
        match response {
            Response::GetEntry(entry) => r == Ok::<Option<FuseEntry>, ClientError>(entry),
            _ => r matches Err(e) && is_refusal(e, response),
        },
{
    match response {
        Response::GetEntry(entry) => Ok(entry),
        other => Err(refusal(other)),
    }
}

/// Reads the answer to deleting a file.
pub fn delete_file(response: Response) -> (r: Result<(), ClientError>)
    ensures
        match response {
            Response::DeleteFile => r is Ok,
            _ => r matches Err(e) && is_refusal(e, response),
        },
{
    match response {
        Response::DeleteFile => Ok(()),
        other => Err(refusal(other)),
    }
}

/// Reads the answer to renaming a file.
pub fn rename_file(response: Response) -> (r: Result<(), ClientError>)
    ensures
        match response {
            Response::RenameFile => r is Ok,
            _ => r matches Err(e) && is_refusal(e, response),
        },
{
    match response {
        Response::RenameFile => Ok(()),
        other => Err(refusal(other)),
    }
}

/// Reads the answer to storing a directory.
pub fn put_dir(response: Response) -> (r: Result<(), ClientError>)
    ensures
        match response {
            Response::PutDir => r is Ok,
            _ => r matches Err(e) && is_refusal(e, response),
        },
{
    match response {
        Response::PutDir => Ok(()),
        other => Err(refusal(other)),
    }
}

/// Reads the answer to storing a link.
pub fn put_symlink(response: Response) -> (r: Result<(), ClientError>)
    ensures
        match response {
            Response::PutSymlink => r is Ok,
            _ => r matches Err(e) && is_refusal(e, response),
        },
{
    match response {
        Response::PutSymlink => Ok(()),
        other => Err(refusal(other)),
    }
}

/// Reads the answer to storing a whiteout.
pub fn put_whiteout(response: Response) -> (r: Result<(), ClientError>)
    ensures
        match response {
            Response::PutWhiteout => r is Ok,
            _ => r matches Err(e) && is_refusal(e, response),
        },
{
    match response {
        Response::PutWhiteout => Ok(()),
        other => Err(refusal(other)),
    }
}

/// Reads the answer to removing a whiteout.
pub fn delete_whiteout(response: Response) -> (r: Result<(), ClientError>)
    ensures
        match response {
            Response::DeleteWhiteout => r is Ok,
            _ => r matches Err(e) && is_refusal(e, response),
        },
{
    match response {
        Response::DeleteWhiteout => Ok(()),
        other => Err(refusal(other)),
    }
}

/// Reads the answer to a request for the entries of a directory.
pub fn read_dir_all(response: Response) -> (r: Result<Vec<(FsPath, FuseEntry)>, ClientError>)
    ensures
        match response {
            Response::DirEntries(entries) => r == Ok::<Vec<(FsPath, FuseEntry)>, ClientError>(
                entries,
            ),
            _ => r matches Err(e) && is_refusal(e, response),
        },
{
    match response {
        Response::DirEntries(entries) => Ok(entries),
        other => Err(refusal(other)),
    }
}

/// Reads the answer to a request for the whiteouts below a path.
pub fn list_whiteout_under(response: Response) -> (r: Result<Vec<FsPath>, ClientError>)
    ensures
        match response {
            Response::WhiteoutPaths(paths) => r == Ok::<Vec<FsPath>, ClientError>(paths),
            _ => r matches Err(e) && is_refusal(e, response),
        },
{
    match response {
        Response::WhiteoutPaths(paths) => Ok(paths),
        other => Err(refusal(other)),
    }
}

/// Reads the answer to renaming a tree.
pub fn rename_tree(response: Response) -> (r: Result<(), ClientError>)
    ensures
        match response {
            Response::RenameTree => r is Ok,
            _ => r matches Err(e) && is_refusal(e, response),
        },
{
    match response {
        Response::RenameTree => Ok(()),
        other => Err(refusal(other)),
    }
}

/// Reads the answer to logging an access.
pub fn log_access(response: Response) -> (r: Result<(), ClientError>)
    ensures
        match response {
            Response::LogAccess => r is Ok,
            _ => r matches Err(e) && is_refusal(e, response),
        },
{
    match response {
        Response::LogAccess => Ok(()),
        other => Err(refusal(other)),
    }
}

/// Reads the answer to writing the state out.
pub fn flush(response: Response) -> (r: Result<(), ClientError>)
    ensures
        match response {
            Response::Flush => r is Ok,
            _ => r matches Err(e) && is_refusal(e, response),
        },
{
    match response {
        Response::Flush => Ok(()),
        other => Err(refusal(other)),
    }
}

} // verus!
