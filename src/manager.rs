//! The request handler: applies the commands of one network read to the
//! content, answers each, and decides which page the display shows.
use vstd::prelude::*;
use vstd::string::StringExecFns;
use vstd::utf8::encode_utf8;
use crate::contents::{Content, ContentModel, Page};
use crate::operation::{apply_spec, framed, no_crlf_from, parse_spec, CommandSplit, Operation};
use crate::server::{Buf, BufModel};

verus! {

broadcast use Buf::lemma_from_view;

/// The line answering one command: `+` and a query's text, or `-` and the
/// error, then the delimiter.
pub open spec fn ok_line(q: Option<Seq<char>>) -> Seq<char> {
    "+"@ + match q {
        Some(t) => t,
        None => Seq::<char>::empty(),
    } + "\r\n"@
}

pub open spec fn error_line(e: Seq<char>) -> Seq<char> {
    "-"@ + e + "\r\n"@
}

/// The answer to one command and the content after it.
pub open spec fn reply(cmd: Seq<u8>, c: ContentModel) -> (Seq<char>, ContentModel) {
    match parse_spec(cmd) {
        Err(e) => (error_line(e.description()), c),
        Ok(op) => {
            let (res, c2) = apply_spec(op, c);
            match res {
                Ok(q) => (ok_line(q), c2),
                Err(e) => (error_line(e.description()), c2),
            }
        },
    }
}

/// The answers to commands applied in order, and the content after them all.
pub open spec fn replies(cmds: Seq<Seq<u8>>, c: ContentModel) -> (Seq<char>, ContentModel)
    decreases cmds.len(),
{
    if cmds.len() == 0 {
        (Seq::empty(), c)
    } else {
        let (r1, c1) = replies(cmds.drop_last(), c);
        let (r2, c2) = reply(cmds.last(), c1);
        (r1 + r2, c2)
    }
}

/// The content together with the position of the page rotation.
pub struct Manager {
    content: Content,
    index: usize,
}

impl Manager {
    pub closed spec fn content_model(&self) -> ContentModel {
        self.content@
    }

    /// The rotation position: the page that the next tick shows, modulo the page count.
    pub closed spec fn rotation(&self) -> nat {
        self.index as nat
    }

    pub fn new(content: Content) -> (r: Self)
        ensures
            r.content_model() == content@,
            r.rotation() == 0,
    {
        Manager { content, index: 0 }
    }

    pub fn content(&self) -> (r: &Content)
        ensures
            r@ == self.content_model(),
    {
        &self.content
    }

    /// Applies every complete command among the unread bytes of `read`, in
    /// order, consumes them, and returns the answers as one buffer. Bytes after
    /// the last delimiter stay unread.
    pub fn handle_network(&mut self, read: &mut Buf) -> (r: Buf)
        requires
            old(read)@.wf(),
        ensures
            final(read)@.wf(),
            final(read)@.bytes == old(read)@.bytes,
            final(read)@.write == old(read)@.write,
            old(read)@.read <= final(read)@.read,
            final(self).rotation() == old(self).rotation(),
            exists|cmds: Seq<Seq<u8>>| {
                &&& #[trigger] framed(old(read)@.unread(), cmds, final(read)@.read - old(read)@.read)
                &&& no_crlf_from(old(read)@.unread(), final(read)@.read - old(read)@.read)
                &&& r@ == (BufModel {
                    bytes: encode_utf8(replies(cmds, old(self).content_model()).0),
                    read: 0,
                    write: encode_utf8(replies(cmds, old(self).content_model()).0).len(),
                })
                &&& final(self).content_model() == replies(cmds, old(self).content_model()).1
            },
    {
        let n = read.readable();
        let data = read.get(n);
        assert(data@ == old(read)@.unread());
        let mut sp = CommandSplit::new(data, 0);
        let mut resp = String::new();
        let ghost mut cmds: Seq<Seq<u8>> = Seq::empty();
        let mut done = false;
        assert(replies(cmds, self.content@).0 =~= resp@);
        while !done
            invariant
                sp.data() == data@,
                sp.position() <= data@.len(),
                framed(data@, cmds, sp.position() as int),
                done ==> no_crlf_from(data@, sp.position() as int),
                (resp@, self.content@) == replies(cmds, old(self).content@),
                self.index == old(self).index,
            decreases data@.len() - sp.position() + (if done { 0int } else { 1int }),
        {
            match sp.next() {
                None => {
                    done = true;
                },
                Some(cmd) => {
                    proof {
                        let c2 = cmds.push(cmd@);
                        assert(c2.drop_last() =~= cmds);
                        cmds = c2;
                    }
                    match Operation::new(cmd) {
                        Err(e) => {
                            resp.append("-");
                            e.append_description(&mut resp);
                            resp.append("\r\n");
                        },
                        Ok(op) => match op.modify(&mut self.content) {
                            Ok(q) => {
                                resp.append("+");
                                resp.append(q.get_text());
                                resp.append("\r\n");
                            },
                            Err(e) => {
                                resp.append("-");
                                e.append_description(&mut resp);
                                resp.append("\r\n");
                            },
                        },
                    }
                    assert(resp@ =~= replies(cmds, old(self).content@).0);
                },
            }
        }
        let consumed = sp.index();
        read.skip(consumed);
        let bytes = vstd::slice::slice_to_vec(resp.as_str().as_bytes());
        let r = Buf::from(bytes);
        assert(framed(old(read)@.unread(), cmds, read@.read - old(read)@.read));
        r
    }

    /// The page to show at once after a batch: the only page, where there is
    /// exactly one.
    pub fn preview(&self) -> (r: Option<&Page>)
        ensures
            r.is_some() == (self.content_model().pages.len() == 1),
            r.is_some() ==> r.unwrap()@ == self.content_model().pages[0],
    {
        if self.content.len() == 1 {
            self.content.get(0)
        } else {
            None
        }
    }

    /// The page that a rotation tick shows: none unless there are at least two
    /// pages.
    pub fn schedule_target(&self) -> (r: Option<usize>)
        ensures
            r.is_some() == (self.content_model().pages.len() > 1),
            r.is_some() ==> r.unwrap() == self.rotation() % self.content_model().pages.len(),
    {
        let n = self.content.len();
        if n > 1 {
            Some(self.index % n)
        } else {
            None
        }
    }

    /// Moves the rotation on past the page that the last tick showed.
    pub fn schedule_done(&mut self)
        ensures
            final(self).content_model() == old(self).content_model(),
            final(self).rotation() == if old(self).content_model().pages.len() > 1 {
                (old(self).rotation() % old(self).content_model().pages.len() + 1) % old(self).content_model().pages.len()
            } else {
                old(self).rotation()
            },
    {
        let n = self.content.len();
        if n > 1 {
            self.index = (self.index % n + 1) % n;
        }
    }
}

} // verus!
