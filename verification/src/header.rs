//! The three binary records framing the compressed payload: local header,
//! central-directory header, and end-of-central-directory record. All
//! integer fields are little-endian; layouts follow the standard PK record
//! format.
use vstd::prelude::*;

verus! {

/// A 16-bit value as two little-endian bytes.
pub open spec fn le16(x: u16) -> Seq<u8> {
    seq![(x % 256) as u8, (x / 256) as u8]
}

/// A 32-bit value as four little-endian bytes.
pub open spec fn le32(x: u32) -> Seq<u8> {
    seq![
        (x % 256) as u8,
        ((x / 256) % 256) as u8,
        ((x / 65536) % 256) as u8,
        (x / 16777216) as u8,
    ]
}

/// The local header: signature PK\x03\x04, version-needed, flags, method 8
/// (deflate), DOS time and date, CRC-32, compressed and uncompressed sizes,
/// name length, extra length 0, then the name bytes.
pub open spec fn local_header_bytes(
    crc: u32,
    before_size: u32,
    after_size: u32,
    name: Seq<u8>,
    hms: u16,
    ymd: u16,
) -> Seq<u8> {
    seq![0x50u8, 0x4bu8, 0x03u8, 0x04u8] + le16(0x0014) + le16(0x0000) + le16(0x0008) + le16(hms)
        + le16(ymd) + le32(crc) + le32(after_size) + le32(before_size) + le16(name.len() as u16)
        + le16(0x0000) + name
}

/// The central-directory header: signature PK\x01\x02, version-made-by,
/// version-needed, flags, method, time, date, CRC-32, sizes, name length,
/// extra/comment lengths, disk number, attributes, local-header offset,
/// then the name bytes.
pub open spec fn central_header_bytes(
    crc: u32,
    before_size: u32,
    after_size: u32,
    name: Seq<u8>,
    hms: u16,
    ymd: u16,
) -> Seq<u8> {
    seq![0x50u8, 0x4bu8, 0x01u8, 0x02u8] + le16(0x0314) + le16(0x0014) + le16(0x0000) + le16(
        0x0008,
    ) + le16(hms) + le16(ymd) + le32(crc) + le32(after_size) + le32(before_size) + le16(
        name.len() as u16,
    ) + le16(0x0000) + le16(0x0000) + le16(0x0000) + le16(0x0000) + le32(0x00000000) + le32(
        0x00000000,
    ) + name
}

/// The end-of-central-directory record: signature PK\x05\x06, disk numbers,
/// one entry on this disk and in total, the central directory's size and
/// starting offset, and comment length 0.
pub open spec fn end_header_bytes(header_size: u32, header_start: u32) -> Seq<u8> {
    seq![0x50u8, 0x4bu8, 0x05u8, 0x06u8] + le16(0x0000) + le16(0x0000) + le16(0x0001) + le16(
        0x0001,
    ) + le32(header_size) + le32(header_start) + le16(0x0000)
}

/// Holds the fields shared by the three records, and the buffer a record is
/// assembled into.
pub struct Header {
    pub buffer: Vec<u8>,
    pub before_size: u32,
    pub after_size: u32,
    pub filename: Vec<u8>,
    pub crc32: u32,
    pub hms: u16,
    pub ymd: u16,
}

impl Header {
    pub fn new(
        before_size: u32,
        after_size: u32,
        filename: Vec<u8>,
        crc32: u32,
        hms: u16,
        ymd: u16,
    ) -> (r: Self)
        ensures
            r.buffer@ == Seq::<u8>::empty(),
            r.before_size == before_size,
            r.after_size == after_size,
            r.filename@ == filename@,
            r.crc32 == crc32,
            r.hms == hms,
            r.ymd == ymd,
    {
        Header { buffer: Vec::new(), before_size, after_size, filename, crc32, hms, ymd }
    }

    /// Appends a 32-bit value to the buffer, little-endian.
    fn push32(&mut self, num: u32)
        ensures
            final(self).buffer@ == old(self).buffer@ + le32(num),
            final(self).before_size == old(self).before_size,
            final(self).after_size == old(self).after_size,
            final(self).filename@ == old(self).filename@,
            final(self).crc32 == old(self).crc32,
            final(self).hms == old(self).hms,
            final(self).ymd == old(self).ymd,
    {
        let a = num % 256;
        let b = (num / 256) % 256;
        let c = (num / 65536) % 256;
        let d = num / 16777216;
        self.buffer.push(a as u8);
        self.buffer.push(b as u8);
        self.buffer.push(c as u8);
        self.buffer.push(d as u8);
        proof {
            assert(self.buffer@ =~= old(self).buffer@ + le32(num));
        }
    }

    /// Appends a 16-bit value to the buffer, little-endian.
    fn push16(&mut self, num: u16)
        ensures
            final(self).buffer@ == old(self).buffer@ + le16(num),
            final(self).before_size == old(self).before_size,
            final(self).after_size == old(self).after_size,
            final(self).filename@ == old(self).filename@,
            final(self).crc32 == old(self).crc32,
            final(self).hms == old(self).hms,
            final(self).ymd == old(self).ymd,
    {
        let a = num % 256;
        let b = num / 256;
        self.buffer.push(a as u8);
        self.buffer.push(b as u8);
        proof {
            assert(self.buffer@ =~= old(self).buffer@ + le16(num));
        }
    }

    /// Appends the end-record signature.
    fn push_pk0506(&mut self)
        ensures
            final(self).buffer@ == old(self).buffer@ + seq![0x50u8, 0x4bu8, 0x05u8, 0x06u8],
            final(self).before_size == old(self).before_size,
            final(self).after_size == old(self).after_size,
            final(self).filename@ == old(self).filename@,
            final(self).crc32 == old(self).crc32,
            final(self).hms == old(self).hms,
            final(self).ymd == old(self).ymd,
    {
        self.buffer.push(0x50);
        self.buffer.push(0x4b);
        self.buffer.push(0x05);
        self.buffer.push(0x06);
        proof {
            assert(self.buffer@ =~= old(self).buffer@ + seq![
                0x50u8,
                0x4bu8,
                0x05u8,
                0x06u8,
            ]);
        }
    }

    /// Appends the local-header signature.
    fn push_pk0304(&mut self)
        ensures
            final(self).buffer@ == old(self).buffer@ + seq![0x50u8, 0x4bu8, 0x03u8, 0x04u8],
            final(self).before_size == old(self).before_size,
            final(self).after_size == old(self).after_size,
            final(self).filename@ == old(self).filename@,
            final(self).crc32 == old(self).crc32,
            final(self).hms == old(self).hms,
            final(self).ymd == old(self).ymd,
    {
        self.buffer.push(0x50);
        self.buffer.push(0x4b);
        self.buffer.push(0x03);
        self.buffer.push(0x04);
        proof {
            assert(self.buffer@ =~= old(self).buffer@ + seq![
                0x50u8,
                0x4bu8,
                0x03u8,
                0x04u8,
            ]);
        }
    }

    /// Appends the central-header signature.
    fn push_pk0102(&mut self)
        ensures
            final(self).buffer@ == old(self).buffer@ + seq![0x50u8, 0x4bu8, 0x01u8, 0x02u8],
            final(self).before_size == old(self).before_size,
            final(self).after_size == old(self).after_size,
            final(self).filename@ == old(self).filename@,
            final(self).crc32 == old(self).crc32,
            final(self).hms == old(self).hms,
            final(self).ymd == old(self).ymd,
    {
        self.buffer.push(0x50);
        self.buffer.push(0x4b);
        self.buffer.push(0x01);
        self.buffer.push(0x02);
        proof {
            assert(self.buffer@ =~= old(self).buffer@ + seq![
                0x50u8,
                0x4bu8,
                0x01u8,
                0x02u8,
            ]);
        }
    }

    /// Appends the file name bytes.
    fn push_filename(&mut self)
        ensures
            final(self).buffer@ == old(self).buffer@ + old(self).filename@,
            final(self).filename@ == old(self).filename@,
    {
        let mut i: usize = 0;
        let n = self.filename.len();
        while i < n
            invariant
                i <= n,
                n == self.filename@.len(),
                self.filename@ == old(self).filename@,
                self.buffer@ == old(self).buffer@ + old(self).filename@.take(i as int),
            decreases n - i,
        {
            let b = self.filename[i];
            self.buffer.push(b);
            proof {
                assert(old(self).filename@.take(i + 1) =~= old(self).filename@.take(i as int).push(
                    old(self).filename@[i as int],
                ));
                assert(self.buffer@ =~= old(self).buffer@ + old(self).filename@.take(i + 1));
            }
            i = i + 1;
        }
        proof {
            assert(old(self).filename@.take(n as int) =~= old(self).filename@);
        }
    }

    /// Builds the local header record.
    pub fn local_header(self) -> (r: Vec<u8>)
        requires
            self.filename@.len() <= 0xFFFF,
        ensures
            r@ == self.buffer@ + local_header_bytes(
                self.crc32,
                self.before_size,
                self.after_size,
                self.filename@,
                self.hms,
                self.ymd,
            ),
    {
        let mut this = self;
        this.push_pk0304();
        this.push16(0x0014);
        this.push16(0x0000);
        this.push16(0x0008);
        let hms = this.hms;
        this.push16(hms);
        let ymd = this.ymd;
        this.push16(ymd);
        let crc = this.crc32;
        this.push32(crc);
        let after = this.after_size;
        this.push32(after);
        let before = this.before_size;
        this.push32(before);
        let name_len = this.filename.len() as u16;
        this.push16(name_len);
        this.push16(0x0000);
        this.push_filename();
        proof {
            assert(this.buffer@ =~= self.buffer@ + local_header_bytes(
                self.crc32,
                self.before_size,
                self.after_size,
                self.filename@,
                self.hms,
                self.ymd,
            ));
        }
        this.buffer
    }

    /// Builds the central-directory header record.
    pub fn central_header(self) -> (r: Vec<u8>)
        requires
            self.filename@.len() <= 0xFFFF,
        ensures
            r@ == self.buffer@ + central_header_bytes(
                self.crc32,
                self.before_size,
                self.after_size,
                self.filename@,
                self.hms,
                self.ymd,
            ),
    {
        let mut this = self;
        this.push_pk0102();
        this.push16(0x0314);
        this.push16(0x0014);
        this.push16(0x0000);
        this.push16(0x0008);
        let hms = this.hms;
        this.push16(hms);
        let ymd = this.ymd;
        this.push16(ymd);
        let crc = this.crc32;
        this.push32(crc);
        let after = this.after_size;
        this.push32(after);
        let before = this.before_size;
        this.push32(before);
        let name_len = this.filename.len() as u16;
        this.push16(name_len);
        this.push16(0x0000);
        this.push16(0x0000);
        this.push16(0x0000);
        this.push16(0x0000);
        this.push32(0x00000000);
        this.push32(0x00000000);
        this.push_filename();
        proof {
            assert(this.buffer@ =~= self.buffer@ + central_header_bytes(
                self.crc32,
                self.before_size,
                self.after_size,
                self.filename@,
                self.hms,
                self.ymd,
            ));
        }
        this.buffer
    }

    /// Builds the end-of-central-directory record; takes the central
    /// directory's total size and its starting offset.
    pub fn end_header(self, header_size: u32, header_start: u32) -> (r: Vec<u8>)
        ensures
            r@ == self.buffer@ + end_header_bytes(header_size, header_start),
    {
        let mut this = self;
        this.push_pk0506();
        this.push16(0x0000);
        this.push16(0x0000);
        this.push16(0x0001);
        this.push16(0x0001);
        this.push32(header_size);
        this.push32(header_start);
        this.push16(0x0000);
        proof {
            assert(this.buffer@ =~= self.buffer@ + end_header_bytes(
                header_size,
                header_start,
            ));
        }
        this.buffer
    }

    /// A copy with the same fields and a fresh, empty buffer.
    pub fn clone(&self) -> (r: Self)
        ensures
            r.buffer@ == Seq::<u8>::empty(),
            r.before_size == self.before_size,
            r.after_size == self.after_size,
            r.filename@ == self.filename@,
            r.crc32 == self.crc32,
            r.hms == self.hms,
            r.ymd == self.ymd,
    {
        let mut name: Vec<u8> = Vec::new();
        let mut i: usize = 0;
        let n = self.filename.len();
        while i < n
            invariant
                i <= n,
                n == self.filename@.len(),
                name@ == self.filename@.take(i as int),
            decreases n - i,
        {
            name.push(self.filename[i]);
            proof {
                assert(self.filename@.take(i + 1) =~= self.filename@.take(i as int).push(
                    self.filename@[i as int],
                ));
            }
            i = i + 1;
        }
        proof {
            assert(self.filename@.take(n as int) =~= self.filename@);
        }
        Header::new(self.before_size, self.after_size, name, self.crc32, self.hms, self.ymd)
    }
}

/// Header construction is deterministic: two headers built from identical
/// field values yield byte-identical records, for each of the three record
/// kinds.
pub proof fn lemma_header_build_deterministic(
    a: Header,
    b: Header,
    size_a: u32,
    start_a: u32,
    size_b: u32,
    start_b: u32,
)
    requires
        a.crc32 == b.crc32,
        a.before_size == b.before_size,
        a.after_size == b.after_size,
        a.filename@ == b.filename@,
        a.hms == b.hms,
        a.ymd == b.ymd,
        size_a == size_b,
        start_a == start_b,
    ensures
        local_header_bytes(a.crc32, a.before_size, a.after_size, a.filename@, a.hms, a.ymd)
            == local_header_bytes(b.crc32, b.before_size, b.after_size, b.filename@, b.hms, b.ymd),
        central_header_bytes(a.crc32, a.before_size, a.after_size, a.filename@, a.hms, a.ymd)
            == central_header_bytes(
            b.crc32,
            b.before_size,
            b.after_size,
            b.filename@,
            b.hms,
            b.ymd,
        ),
        end_header_bytes(size_a, start_a) == end_header_bytes(size_b, start_b),
{
}

} // verus!
