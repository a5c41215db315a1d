//! A chain of SOCKS6 proxies that a connection passes through, and the
//! position of the current proxy in it.
use vstd::prelude::*;
use vstd::utf8::{decode_utf8, decode_utf8_encode_utf8};
use crate::addresses::{
    lemma_decimal_text_reads_back, lemma_proxy_address_text_valid, proxy_address_text, ProxyAddress,
    ProxyAddressView,
};
use crate::ip::{decimal_value, is_dec_digit};
use crate::socks6::options::{MetadataOption, SocksOption, SocksOptionView, options_view};
use crate::text::{
    decimal_string, decimal_text, lemma_ascii_valid_utf8, lemma_decimal_text_ascii, utf8_of,
};

verus! {

/// The links of a chain and the index of the current one.
#[derive(Clone, Debug)]
pub struct SocksChain {
    pub index: usize,
    pub links: Vec<ProxyAddress>,
}

/// The views of a sequence of proxy addresses.
pub open spec fn links_view(links: Seq<ProxyAddress>) -> Seq<ProxyAddressView> {
    links.map_values(|p: ProxyAddress| p@)
}

/// The proxy that stands for the local server at the root of a chain.
pub open spec fn root_view() -> ProxyAddressView {
    ProxyAddressView { socks_version: 6, host: "root"@, port: 1080, credentials: None }
}

/// The links after a detour: the extra links right after the current one,
/// or, in an empty chain, after a root link.
pub open spec fn detoured(index: nat, links: Seq<ProxyAddressView>, extra: Seq<ProxyAddressView>) -> Seq<
    ProxyAddressView,
> {
    if links.len() == 0 {
        seq![root_view()] + extra
    } else {
        links.subrange(0, index as int + 1) + extra + links.subrange(index as int + 1, links.len() as int)
    }
}

/// A metadata option whose value is the text with UTF-8 bytes `text`.
pub open spec fn metadata_text(key: u16, text: Seq<u8>) -> SocksOptionView {
    SocksOptionView::Metadata { key, value: decode_utf8(text) }
}

/// The metadata options that describe a chain: link `i` under key
/// `1000 + i`, then the index under key 998 and the length under key 999.
pub open spec fn chain_options(index: nat, links: Seq<ProxyAddressView>) -> Seq<SocksOptionView> {
    Seq::new(
        links.len(),
        |i: int| metadata_text((1000 + i) as u16, proxy_address_text(links[i])),
    ).push(metadata_text(998, decimal_text(index))).push(
        metadata_text(999, decimal_text(links.len())),
    )
}

impl SocksChain {
    pub fn new(index: usize, links: Vec<ProxyAddress>) -> (r: Self)
        ensures
            r.index == index,
            r.links == links,
    {
        SocksChain { index, links }
    }

    /// The chain with no links, at index zero.
    pub fn default() -> (r: Self)
        ensures
            r.index == 0,
            r.links@.len() == 0,
    {
        Self::new(0, Vec::new())
    }

    /// The current link.
    pub fn current_link(&self) -> (r: &ProxyAddress)
        requires
            self.index < self.links@.len(),
        ensures
            *r == self.links@[self.index as int],
    {
        &self.links[self.index]
    }

    /// Whether a link follows the current one.
    pub fn has_next(&self) -> (r: bool)
        ensures
            r == (self.index + 1 < self.links@.len()),
    {
        self.links.len() > 0 && self.index < self.links.len() - 1
    }

    /// Moves to the next link and gives it, if there is one; otherwise the
    /// chain is unchanged.
    pub fn next_link(&mut self) -> (r: Option<&ProxyAddress>)
        ensures
            final(self).links == old(self).links,
            old(self).index + 1 < old(self).links@.len() ==> {
                &&& final(self).index == old(self).index + 1
                &&& r matches Some(link) && *link == old(self).links@[old(self).index + 1]
            },
            !(old(self).index + 1 < old(self).links@.len()) ==> {
                &&& final(self).index == old(self).index
                &&& r is None
            },
    {
        let len = self.links.len();
        if self.has_next() {
            self.index = self.index + 1;
            Some(&self.links[self.index])
        } else {
            None
        }
    }

    /// Inserts `links` right after the current link. A chain with no links
    /// is at its root: it becomes the root link followed by `links`.
    pub fn detour(&mut self, links: &[ProxyAddress])
        requires
            old(self).links@.len() > 0 ==> old(self).index < old(self).links@.len(),
        ensures
            final(self).index == old(self).index,
            links_view(final(self).links@) == detoured(
                old(self).index as nat,
                links_view(old(self).links@),
                links_view(links@),
            ),
    {
        let len = self.links.len();
        let ghost old_links = links_view(self.links@);
        let ghost extra = links_view(links@);
        let mut result: Vec<ProxyAddress> = Vec::new();
        let ghost prefix: Seq<ProxyAddressView>;
        if self.links.len() == 0 {
            result.push(ProxyAddress::root());
            proof { prefix = seq![root_view()]; }
            assert(links_view(result@) =~= prefix);
        } else {
            let mut i: usize = 0;
            while i <= self.index
                invariant
                    i <= self.index + 1,
                    self.index < self.links@.len(),
                    len == self.links@.len(),
                    links_view(result@) =~= links_view(self.links@).subrange(0, i as int),
                decreases self.index + 1 - i,
            {
                let ghost before = result@;
                let link = self.links[i].clone();
                result.push(link);
                assert(links_view(result@) =~= links_view(before).push(self.links@[i as int]@));
                i = i + 1;
            }
            proof { prefix = old_links.subrange(0, self.index + 1); }
        }
        let mut j: usize = 0;
        while j < links.len()
            invariant
                j <= links@.len(),
                extra == links_view(links@),
                links_view(result@) =~= prefix + extra.subrange(0, j as int),
            decreases links@.len() - j,
        {
            let ghost before = result@;
            let link = links[j].clone();
            result.push(link);
            assert(links_view(result@) =~= links_view(before).push(links@[j as int]@));
            j = j + 1;
        }
        assert(extra.subrange(0, j as int) =~= extra);
        if self.links.len() > 0 {
            let mut k: usize = self.index + 1;
            while k < self.links.len()
                invariant
                    self.index + 1 <= k <= self.links@.len(),
                    len == self.links@.len(),
                    old_links == links_view(self.links@),
                    links_view(result@) =~= prefix + extra + old_links.subrange(
                        self.index + 1,
                        k as int,
                    ),
                decreases self.links@.len() - k,
            {
                let ghost before = result@;
                let link = self.links[k].clone();
                result.push(link);
                assert(links_view(result@) =~= links_view(before).push(self.links@[k as int]@));
                k = k + 1;
            }
        }
        self.links = result;
    }

    /// The chain as metadata options: link `i` under key `1000 + i`, the
    /// index under key 998 and the number of links under key 999.
    pub fn as_options(&self) -> (r: Vec<SocksOption>)
        requires
            self.links@.len() <= 64536,
            forall|i: int|
                0 <= i < self.links@.len() ==> utf8_of(#[trigger] self.links@[i].host@).len() + 20
                    <= usize::MAX,
        ensures
            options_view(r@) == chain_options(self.index as nat, links_view(self.links@)),
    {
        let ghost expected = chain_options(self.index as nat, links_view(self.links@));
        let mut options: Vec<SocksOption> = Vec::new();
        let mut i: usize = 0;
        while i < self.links.len()
            invariant
                i <= self.links@.len() <= 64536,
                forall|k: int|
                    0 <= k < self.links@.len() ==> utf8_of(#[trigger] self.links@[k].host@).len()
                        + 20 <= usize::MAX,
                options_view(options@) =~= Seq::new(
                    i as nat,
                    |k: int|
                        metadata_text((1000 + k) as u16, proxy_address_text(self.links@[k]@)),
                ),
            decreases self.links@.len() - i,
        {
            let text = self.links[i].to_string();
            let ghost before = options@;
            let option = MetadataOption::new(1000 + (i as u16), text);
            options.push(option);
            assert(options_view(options@) =~= options_view(before).push(option@));
            i = i + 1;
        }
        let ghost before = options@;
        let index_option = MetadataOption::new(998, decimal_string(self.index as u64));
        options.push(index_option);
        let length_option = MetadataOption::new(999, decimal_string(self.links.len() as u64));
        options.push(length_option);
        assert(options_view(options@) =~= options_view(before).push(index_option@).push(length_option@));
        assert(options_view(options@) =~= expected);
        options
    }
}

/// A detour of a chain with links keeps the links up to and including the
/// current one in place, puts the extra links right after it, in order, and
/// moves the remaining links behind them, in order. A detour of an empty
/// chain gives the root link followed by the extra links.
pub proof fn lemma_detour_places_links(
    index: nat,
    links: Seq<ProxyAddressView>,
    extra: Seq<ProxyAddressView>,
)
    requires
        links.len() > 0 ==> index < links.len(),
    ensures
        ({
            let r = detoured(index, links, extra);
            &&& links.len() > 0 ==> {
                &&& r.len() == links.len() + extra.len()
                &&& forall|j: int| 0 <= j <= index ==> #[trigger] r[j] == links[j]
                &&& forall|j: int| 0 <= j < extra.len() ==> #[trigger] r[index + 1 + j] == extra[j]
                &&& forall|j: int| index < j < links.len() ==> #[trigger] r[j + extra.len()] == links[j]
            }
            &&& links.len() == 0 ==> {
                &&& r.len() == 1 + extra.len()
                &&& r[0].socks_version == 6 && r[0].host == "root"@ && r[0].port == 1080
                    && r[0].credentials is None
                &&& forall|j: int| 0 <= j < extra.len() ==> #[trigger] r[1 + j] == extra[j]
            }
        }),
{
}

/// The options describing a chain hold, in order, each link's text under
/// key `1000 + i`, then the current index under key 998 and the number of
/// links under key 999, both written in decimal digits that read back as
/// those numbers.
pub proof fn lemma_chain_options_describe(index: nat, links: Seq<ProxyAddressView>)
    requires
        links.len() <= 64536,
    ensures
        ({
            let o = chain_options(index, links);
            let n = links.len() as int;
            &&& o.len() == n + 2
            &&& forall|i: int|
                0 <= i < n ==> (#[trigger] o[i]) is Metadata && o[i]->key == 1000 + i && utf8_of(
                    o[i]->value,
                ) == proxy_address_text(links[i])
            &&& o[n] is Metadata && o[n]->key == 998
            &&& forall|i: int| 0 <= i < utf8_of(o[n]->value).len() ==> is_dec_digit(
                #[trigger] utf8_of(o[n]->value)[i],
            )
            &&& decimal_value(utf8_of(o[n]->value), 0, utf8_of(o[n]->value).len() as int) == index
            &&& o[n + 1] is Metadata && o[n + 1]->key == 999
            &&& forall|i: int| 0 <= i < utf8_of(o[n + 1]->value).len() ==> is_dec_digit(
                #[trigger] utf8_of(o[n + 1]->value)[i],
            )
            &&& decimal_value(utf8_of(o[n + 1]->value), 0, utf8_of(o[n + 1]->value).len() as int)
                == links.len()
        }),
{
    let o = chain_options(index, links);
    let n = links.len() as int;
    assert forall|i: int| 0 <= i < n implies (#[trigger] o[i]) is Metadata && o[i]->key == 1000 + i
        && utf8_of(o[i]->value) == proxy_address_text(links[i]) by {
        lemma_proxy_address_text_valid(links[i]);
        decode_utf8_encode_utf8(proxy_address_text(links[i]));
    }
    lemma_decimal_text_ascii(index);
    lemma_decimal_text_ascii(links.len());
    lemma_ascii_valid_utf8(decimal_text(index));
    lemma_ascii_valid_utf8(decimal_text(links.len()));
    decode_utf8_encode_utf8(decimal_text(index));
    decode_utf8_encode_utf8(decimal_text(links.len()));
    lemma_decimal_text_reads_back(index);
    lemma_decimal_text_reads_back(links.len());
}

} // verus!
