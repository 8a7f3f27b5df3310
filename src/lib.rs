//! A key-value store core: typed values and their byte encoding, per-table
//! storage backends, a command dispatcher that maps storage outcomes to
//! response envelopes, and a service façade with an ordered hook pipeline.
mod check;
mod codec;
mod command;
mod dispatch;
mod frame;
mod laws;
mod memtable;
mod order;
mod service;
mod sleddb;
mod storage;
mod value;

pub use check::{
    assert_res_error, assert_res_ok, occurs_at, same_pair, same_value,
};
pub use codec::{
    decode_value, encode_value, encoding, entry_view, is_entry_pair, pair_from_entry,
    pairs_from_entries, stores_pair, TAG_BINARY,
    TAG_BOOL, TAG_EMPTY, TAG_INTEGER, TAG_STR,
};
pub use command::{
    failure, not_found_message, ok_pairs, ok_values, pairs_view, values_view, CommandRequest,
    CommandResponse, Hdel, Hexist, Hget, Hgetall, Hmdel, Hmexist, Hmget, Hmset, Hset, KvError,
    RequestData, RespView, STATUS_BAD_REQUEST, STATUS_INTERNAL, STATUS_NOT_FOUND, STATUS_OK,
};
pub use dispatch::{
    element_exists, element_value, exist_answer, exist_response, exists_or_empty, get_answer,
    get_response, pairs_answer, pairs_response, previous_answer, previous_response, value_or_empty,
    batch_of, del_each, dispatch, dispatch_serves, dispatch_shaped, keys_view, no_data_message,
    set_each, store_error, CommandService,
};
pub use frame::{
    be32, be32_value, decode_frame, encode_frame, frame_of, header_word, parse_header,
    gzip_of, open_payload, seal_message, sent_form, should_compress, COMPRESSION_BIT,
    COMPRESSION_LIMIT, HEADER_LEN, MAX_FRAME,
};
pub use laws::{
    absent_entry_reads_absent, batch_get_aligned, distinct_writes_all_kept,
    last_status_rewrite_reaches_caller, last_write_wins,
};
pub use memtable::{MemTable, MemTableIter};
pub use order::{
    byte_codes, char_codes, compare_pairs, compare_values, is_sorted, kind_rank, lex_cmp,
    pair_cmp, pairs_sorted, value_cmp,
};
pub use service::{passes_through, Hook, NoHook, Service, ServiceInner};
pub use sleddb::{SledDB, SledIter};
pub use storage::{flip, lists_table, lookup, opt_view, or_empty, Storage, StoreModel};
pub use value::{Kvpair, VValue, Value};
