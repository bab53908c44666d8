//! Packet buffer chains: the payload lwIP received or is to send, link by
//! link.
use vstd::prelude::*;

verus! {

/// The length of a chain: the lengths of its links added up.
pub open spec fn chain_len(links: Seq<Seq<u8>>) -> nat
    decreases links.len(),
{
    if links.len() == 0 {
        0
    } else {
        chain_len(links.drop_last()) + links.last().len()
    }
}

/// The payloads of the links, in order.
pub open spec fn payloads(links: Seq<Vec<u8>>) -> Seq<Seq<u8>> {
    links.map_values(|l: Vec<u8>| l@)
}

proof fn lemma_chain_len_step(links: Seq<Seq<u8>>, i: int)
    requires
        0 <= i < links.len(),
    ensures
        chain_len(links.take(i + 1)) == chain_len(links.take(i)) + links[i].len(),
{
    assert(links.take(i + 1).drop_last() =~= links.take(i));
}

proof fn lemma_chain_len_prefix(links: Seq<Seq<u8>>, i: int)
    requires
        0 <= i <= links.len(),
    ensures
        chain_len(links.take(i)) <= chain_len(links),
    decreases links.len() - i,
{
    if i < links.len() {
        lemma_chain_len_step(links, i);
        lemma_chain_len_prefix(links, i + 1);
    } else {
        assert(links.take(i) =~= links);
    }
}

/// The length of a chain when it fits in lwIP's 16-bit total length.
pub fn chain_total(links: &Vec<Vec<u8>>) -> (r: Option<u16>)
    ensures
        chain_len(payloads(links@)) <= u16::MAX ==> r == Some(chain_len(payloads(links@)) as u16),
        chain_len(payloads(links@)) > u16::MAX ==> r is None,
{
    let ghost ls = payloads(links@);
    let mut sum: u16 = 0;
    let mut i: usize = 0;
    while i < links.len()
        invariant
            ls == payloads(links@),
            i <= links@.len(),
            sum == chain_len(ls.take(i as int)),
        decreases links@.len() - i,
    {
        proof {
            lemma_chain_len_step(ls, i as int);
        }
        let n = links[i].len();
        if n > 0xffff || sum as usize + n > 0xffff {
            proof {
                lemma_chain_len_prefix(ls, i + 1);
            }
            return None;
        }
        sum = sum + n as u16;
        i = i + 1;
    }
    assert(ls.take(i as int) =~= ls);
    Some(sum)
}

/// A packet buffer chain owned by the library until it is dropped.
pub struct PacketBuffer {
    links: Vec<Vec<u8>>,
    tot_len: u16,
}

impl View for PacketBuffer {
    type V = Seq<Seq<u8>>;

    closed spec fn view(&self) -> Seq<Seq<u8>> {
        payloads(self.links@)
    }
}

impl PacketBuffer {
    #[verifier::type_invariant]
    spec fn total_is_chain_len(&self) -> bool {
        self.tot_len == chain_len(payloads(self.links@))
    }

    /// A buffer for a chain lwIP handed over; none at all is refused. The
    /// chain's total length fits lwIP's 16 bits.
    pub fn try_from(chain: Option<Vec<Vec<u8>>>) -> (r: Result<PacketBuffer, ()>)
        requires
            chain matches Some(links) ==> chain_len(payloads(links@)) <= u16::MAX,
        ensures
            match chain {
                None => r is Err,
                Some(links) => r matches Ok(p) && p@ == payloads(links@),
            },
    {
        match chain {
            None => Err(()),
            Some(links) => {
                let tot_len = match chain_total(&links) {
                    Some(t) => t,
                    None => return Err(()),
                };
                Ok(PacketBuffer { links, tot_len })
            },
        }
    }

    /// A single-link buffer holding `payload`, which must fit in lwIP's
    /// 16-bit length.
    pub fn allocate(payload: Vec<u8>) -> (r: Option<PacketBuffer>)
        ensures
            payload@.len() <= u16::MAX <==> r is Some,
            r matches Some(p) ==> p@ == seq![payload@],
    {
        if payload.len() > 0xffff {
            return None;
        }
        let ghost pl = payload@;
        let tot_len = payload.len() as u16;
        let mut links: Vec<Vec<u8>> = Vec::new();
        links.push(payload);
        proof {
            assert(payloads(links@) =~= seq![pl]);
            assert(seq![pl].drop_last() =~= Seq::<Seq<u8>>::empty());
            assert(chain_len(Seq::<Seq<u8>>::empty()) == 0);
            assert(seq![pl].last() == pl);
            assert(chain_len(seq![pl]) == pl.len());
        }
        Some(PacketBuffer { links, tot_len })
    }

    /// The total length of data held within the chain.
    pub fn total_len(&self) -> (r: u16)
        ensures
            r == chain_len(self@),
    {
        proof {
            use_type_invariant(self);
        }
        self.tot_len
    }

    /// A copy of the payloads of the links, in order.
    pub fn links(&self) -> (r: Vec<Vec<u8>>)
        ensures
            payloads(r@) == self@,
    {
        let mut r: Vec<Vec<u8>> = Vec::new();
        let mut i: usize = 0;
        while i < self.links.len()
            invariant
                i <= self.links@.len(),
                payloads(r@) =~= payloads(self.links@).take(i as int),
            decreases self.links@.len() - i,
        {
            let l = &self.links[i];
            let c = crate::text::copy_range(l.as_slice(), 0, l.len());
            proof {
                assert(c@ =~= self.links@[i as int]@);
            }
            let ghost before = r@;
            r.push(c);
            proof {
                assert(payloads(r@) =~= payloads(before).push(c@));
                assert(payloads(self.links@).take(i + 1) =~= payloads(self.links@).take(i as int).push(
                    self.links@[i as int]@,
                ));
            }
            i = i + 1;
        }
        assert(payloads(self.links@).take(i as int) =~= payloads(self.links@));
        r
    }

    /// Turns the buffer into an iterator over the payloads of its links.
    pub fn into_iter(self) -> (r: PacketBufferIterator)
        ensures
            r@ == self@,
    {
        PacketBufferIterator { rest: self.links }
    }
}

/// The links of a chain not yet handed out.
pub struct PacketBufferIterator {
    rest: Vec<Vec<u8>>,
}

impl View for PacketBufferIterator {
    type V = Seq<Seq<u8>>;

    closed spec fn view(&self) -> Seq<Seq<u8>> {
        payloads(self.rest@)
    }
}

impl PacketBufferIterator {
    /// The payload of the next link, if any is left.
    pub fn next(&mut self) -> (r: Option<Vec<u8>>)
        ensures
            old(self)@.len() == 0 ==> r is None && final(self)@ == old(self)@,
            old(self)@.len() > 0 ==> (r matches Some(l) && l@ == old(self)@[0] && final(self)@
                == old(self)@.drop_first()),
    {
        if self.rest.len() == 0 {
            return None;
        }
        let l = self.rest.remove(0);
        proof {
            assert(payloads(self.rest@) =~= payloads(old(self).rest@).drop_first());
        }
        Some(l)
    }
}

} // verus!
