//! The distance graph and the demand forecast.
use vstd::prelude::*;

use crate::otimizacao::models::DadosPrevisao;

verus! {

/// One directed entry of the cost table: origin, destination, cost.
pub type EntradaSpec = (Seq<char>, Seq<char>, u32);

/// The cost recorded for `a -> b` in a table: the last entry with that key.
pub open spec fn custo_em(t: Seq<EntradaSpec>, a: Seq<char>, b: Seq<char>) -> Option<u32>
    decreases t.len(),
{
    if t.len() == 0 {
        None
    } else if t.last().0 == a && t.last().1 == b {
        Some(t.last().2)
    } else {
        custo_em(t.drop_last(), a, b)
    }
}

/// The position of the last entry with key `a -> b`, or -1.
pub open spec fn indice_ultimo(t: Seq<EntradaSpec>, a: Seq<char>, b: Seq<char>) -> int
    decreases t.len(),
{
    if t.len() == 0 {
        -1
    } else if t.last().0 == a && t.last().1 == b {
        t.len() - 1
    } else {
        indice_ultimo(t.drop_last(), a, b)
    }
}

/// The table with `a -> b` set to `c`: the entry is replaced in place when
/// the key is present, appended otherwise.
pub open spec fn com_custo(t: Seq<EntradaSpec>, a: Seq<char>, b: Seq<char>, c: u32) -> Seq<
    EntradaSpec,
> {
    let i = indice_ultimo(t, a, b);
    if i >= 0 {
        t.update(i, (a, b, c))
    } else {
        t.push((a, b, c))
    }
}

/// The table after recording the undirected edge `a -- b` of cost `c`.
pub open spec fn com_aresta(t: Seq<EntradaSpec>, a: Seq<char>, b: Seq<char>, c: u32) -> Seq<
    EntradaSpec,
> {
    com_custo(com_custo(t, a, b, c), b, a, c)
}

/// The table that loading the entries `s` one by one into an empty graph
/// gives.
pub open spec fn carregada(s: Seq<EntradaSpec>) -> Seq<EntradaSpec>
    decreases s.len(),
{
    if s.len() == 0 {
        Seq::empty()
    } else {
        com_custo(carregada(s.drop_last()), s.last().0, s.last().1, s.last().2)
    }
}

pub proof fn lemma_indice_ultimo(t: Seq<EntradaSpec>, a: Seq<char>, b: Seq<char>)
    ensures
        -1 <= indice_ultimo(t, a, b) < t.len(),
        indice_ultimo(t, a, b) >= 0 ==> t[indice_ultimo(t, a, b)].0 == a && t[indice_ultimo(
            t,
            a,
            b,
        )].1 == b,
        custo_em(t, a, b) == if indice_ultimo(t, a, b) >= 0 {
            Some(t[indice_ultimo(t, a, b)].2)
        } else {
            None::<u32>
        },
        forall|j: int|
            indice_ultimo(t, a, b) < j < t.len() ==> !(t[j].0 == a && t[j].1 == b),
    decreases t.len(),
{
    if t.len() > 0 {
        let u = t.drop_last();
        lemma_indice_ultimo(u, a, b);
        assert forall|j: int| 0 <= j < u.len() implies u[j] == t[j] by {}
    }
}

/// Setting `a -> b` changes the cost of that key alone.
pub proof fn lemma_custo_com_custo(
    t: Seq<EntradaSpec>,
    a: Seq<char>,
    b: Seq<char>,
    c: u32,
    x: Seq<char>,
    y: Seq<char>,
)
    ensures
        custo_em(com_custo(t, a, b, c), x, y) == if x == a && y == b {
            Some(c)
        } else {
            custo_em(t, x, y)
        },
{
    let u = com_custo(t, a, b, c);
    lemma_indice_ultimo(t, a, b);
    lemma_indice_ultimo(t, x, y);
    lemma_indice_ultimo(u, x, y);
    let i = indice_ultimo(t, a, b);
    let k = indice_ultimo(t, x, y);
    let m = indice_ultimo(u, x, y);
    if x == a && y == b {
        if i < 0 {
            assert(u[u.len() - 1].0 == x && u[u.len() - 1].1 == y);
        } else {
            assert(u[i].0 == x && u[i].1 == y);
        }
    } else {
        // the key of every entry is kept, and only (a, b) may be added
        assert forall|j: int| 0 <= j < t.len() implies u[j].0 == t[j].0 && u[j].1 == t[j].1 && (
        j != i ==> u[j] == t[j]) by {}
        if k >= 0 {
            assert(u[k].0 == x && u[k].1 == y);
        }
        if m >= 0 {
            assert(m < t.len());
            assert(t[m].0 == x && t[m].1 == y);
        }
    }
}

/// Recording the undirected edge `a -- b` sets both directions and leaves
/// every other key as it was.
pub proof fn lemma_custo_com_aresta(
    t: Seq<EntradaSpec>,
    a: Seq<char>,
    b: Seq<char>,
    c: u32,
    x: Seq<char>,
    y: Seq<char>,
)
    ensures
        custo_em(com_aresta(t, a, b, c), x, y) == if (x == a && y == b) || (x == b && y == a) {
            Some(c)
        } else {
            custo_em(t, x, y)
        },
{
    lemma_custo_com_custo(com_custo(t, a, b, c), b, a, c, x, y);
    lemma_custo_com_custo(t, a, b, c, x, y);
}

/// Symmetry: after the edge `a -- b` of cost `c` is recorded, both
/// directions cost `c`.
pub proof fn lei_simetria(t: Seq<EntradaSpec>, a: Seq<char>, b: Seq<char>, c: u32)
    ensures
        custo_em(com_aresta(t, a, b, c), a, b) == Some(c),
        custo_em(com_aresta(t, a, b, c), b, a) == Some(c),
{
    lemma_custo_com_aresta(t, a, b, c, a, b);
    lemma_custo_com_aresta(t, a, b, c, b, a);
}

/// Setting a key to the cost it already has leaves the table as it is.
pub proof fn lemma_com_custo_presente(t: Seq<EntradaSpec>, a: Seq<char>, b: Seq<char>, c: u32)
    requires
        custo_em(t, a, b) == Some(c),
    ensures
        com_custo(t, a, b, c) == t,
{
    lemma_indice_ultimo(t, a, b);
    let i = indice_ultimo(t, a, b);
    assert(t[i] == (a, b, c));
    assert(com_custo(t, a, b, c) =~= t);
}

/// Idempotence: recording the same edge twice leaves the table, and so the
/// persisted table, as the first time left it.
pub proof fn lei_idempotencia(t: Seq<EntradaSpec>, a: Seq<char>, b: Seq<char>, c: u32)
    ensures
        com_aresta(com_aresta(t, a, b, c), a, b, c) == com_aresta(t, a, b, c),
{
    let t1 = com_aresta(t, a, b, c);
    lei_simetria(t, a, b, c);
    lemma_com_custo_presente(t1, a, b, c);
    lemma_com_custo_presente(t1, b, a, c);
}

/// Round trip: reloading the entries of a table gives every key the cost
/// that the table gives it.
pub proof fn lei_ida_e_volta(t: Seq<EntradaSpec>, a: Seq<char>, b: Seq<char>)
    ensures
        custo_em(carregada(t), a, b) == custo_em(t, a, b),
    decreases t.len(),
{
    if t.len() > 0 {
        let e = t.last();
        lei_ida_e_volta(t.drop_last(), a, b);
        lemma_custo_com_custo(carregada(t.drop_last()), e.0, e.1, e.2, a, b);
    }
}

/// One directed entry of the cost table.
pub struct Aresta {
    pub origem: String,
    pub destino: String,
    /// In thousandths of a kilometre.
    pub custo: u32,
}

impl View for Aresta {
    type V = EntradaSpec;

    open spec fn view(&self) -> EntradaSpec {
        (self.origem@, self.destino@, self.custo)
    }
}

impl Aresta {
    pub fn copia(&self) -> (r: Aresta)
        ensures
            r@ == self@,
    {
        Aresta { origem: self.origem.clone(), destino: self.destino.clone(), custo: self.custo }
    }
}

/// The views of a sequence of entries.
pub open spec fn vista_arestas(v: Seq<Aresta>) -> Seq<EntradaSpec> {
    v.map_values(|e: Aresta| e@)
}

/// The symmetric weighted graph of named points, held as its cost table.
///
/// Its view is the table: each key `a -> b` costs what the last entry with
/// that key says. Every key occurs once, since entries are only ever
/// replaced in place or appended under a new key.
pub struct ServicoDistancia {
    arestas: Vec<Aresta>,
    caminho_arquivo: String,
}

impl View for ServicoDistancia {
    type V = Seq<EntradaSpec>;

    closed spec fn view(&self) -> Seq<EntradaSpec> {
        vista_arestas(self.arestas@)
    }
}

impl ServicoDistancia {
    /// The place where the table is persisted.
    pub closed spec fn caminho_spec(&self) -> Seq<char> {
        self.caminho_arquivo@
    }

    /// A graph persisted at `caminho_json`, loaded from the entries that
    /// were read there; with nothing read (the source absent or malformed)
    /// the graph is empty. Each entry is loaded as the one direction that it
    /// states.
    pub fn new(caminho_json: &str, tabela: Option<Vec<Aresta>>) -> (r: ServicoDistancia)
        ensures
            r.caminho_spec() == caminho_json@,
            r@ == match tabela {
                Some(t) => carregada(vista_arestas(t@)),
                None => Seq::<EntradaSpec>::empty(),
            },
    {
        let mut g = ServicoDistancia { arestas: Vec::new(), caminho_arquivo: caminho_json.to_owned() };
        assert(g@ =~= Seq::<EntradaSpec>::empty());
        match tabela {
            None => g,
            Some(t) => {
                let ghost s = vista_arestas(t@);
                let mut i: usize = 0;
                while i < t.len()
                    invariant
                        0 <= i <= t.len(),
                        s == vista_arestas(t@),
                        g@ == carregada(s.subrange(0, i as int)),
                        g.caminho_spec() == caminho_json@,
                    decreases t.len() - i,
                {
                    let e = &t[i];
                    g.definir_custo(&e.origem, &e.destino, e.custo);
                    proof {
                        assert(s.subrange(0, i + 1).drop_last() =~= s.subrange(0, i as int));
                    }
                    i = i + 1;
                }
                assert(s.subrange(0, t.len() as int) =~= s);
                g
            },
        }
    }

    /// The place where the table is persisted.
    pub fn caminho_arquivo(&self) -> (r: &String)
        ensures
            r@ == self.caminho_spec(),
    {
        &self.caminho_arquivo
    }

    /// The position of the entry with key `a -> b`.
    fn indice(&self, a: &String, b: &String) -> (r: Option<usize>)
        ensures
            match r {
                Some(i) => i == indice_ultimo(self@, a@, b@),
                None => indice_ultimo(self@, a@, b@) == -1,
            },
    {
        let ghost t = self@;
        let mut i: usize = self.arestas.len();
        assert(t.subrange(0, i as int) =~= t);
        while i > 0
            invariant
                i <= self.arestas.len(),
                t == self@,
                indice_ultimo(t, a@, b@) == indice_ultimo(t.subrange(0, i as int), a@, b@),
            decreases i,
        {
            let e = &self.arestas[i - 1];
            if e.origem == *a && e.destino == *b {
                return Some(i - 1);
            }
            proof {
                assert(t.subrange(0, i as int).drop_last() =~= t.subrange(0, i - 1));
            }
            i = i - 1;
        }
        None
    }

    /// Sets the directed cost `a -> b`.
    fn definir_custo(&mut self, a: &String, b: &String, c: u32)
        ensures
            final(self)@ == com_custo(old(self)@, a@, b@, c),
            final(self).caminho_spec() == old(self).caminho_spec(),
    {
        let e = Aresta { origem: a.clone(), destino: b.clone(), custo: c };
        match self.indice(a, b) {
            Some(i) => {
                proof {
                    lemma_indice_ultimo(self@, a@, b@);
                }
                self.arestas.set(i, e);
                assert(self@ =~= com_custo(old(self)@, a@, b@, c));
            },
            None => {
                self.arestas.push(e);
                assert(self@ =~= com_custo(old(self)@, a@, b@, c));
            },
        }
    }

    /// The cost of going from `origem` to `destino`, if an edge is known.
    pub fn get_custo(&self, origem: &str, destino: &str) -> (r: Option<u32>)
        ensures
            r == custo_em(self@, origem@, destino@),
    {
        let a = origem.to_owned();
        let b = destino.to_owned();
        self.custo(&a, &b)
    }

    pub(crate) fn custo(&self, a: &String, b: &String) -> (r: Option<u32>)
        ensures
            r == custo_em(self@, a@, b@),
    {
        proof {
            lemma_indice_ultimo(self@, a@, b@);
        }
        match self.indice(a, b) {
            Some(i) => Some(self.arestas[i].custo),
            None => None,
        }
    }

    /// Records the undirected edge `origem -- destino` of cost `custo`: both
    /// directions are set, every other key keeps its cost. The caller
    /// persists the table afterwards.
    pub fn adicionar_distancia(&mut self, origem: String, destino: String, custo: u32)
        ensures
            final(self)@ == com_aresta(old(self)@, origem@, destino@, custo),
            final(self).caminho_spec() == old(self).caminho_spec(),
            forall|x: Seq<char>, y: Seq<char>|
                #[trigger] custo_em(final(self)@, x, y) == if (x == origem@ && y == destino@) || (
                x == destino@ && y == origem@) {
                    Some(custo)
                } else {
                    custo_em(old(self)@, x, y)
                },
    {
        self.definir_custo(&origem, &destino, custo);
        self.definir_custo(&destino, &origem, custo);
        proof {
            assert forall|x: Seq<char>, y: Seq<char>|
                #[trigger] custo_em(self@, x, y) == if (x == origem@ && y == destino@) || (x
                    == destino@ && y == origem@) {
                    Some(custo)
                } else {
                    custo_em(old(self)@, x, y)
                } by {
                lemma_custo_com_aresta(old(self)@, origem@, destino@, custo, x, y);
            }
        }
    }

    /// The entries to persist, in table order.
    pub fn tabela(&self) -> (r: Vec<Aresta>)
        ensures
            vista_arestas(r@) == self@,
    {
        let mut r: Vec<Aresta> = Vec::new();
        let mut i: usize = 0;
        while i < self.arestas.len()
            invariant
                i <= self.arestas.len(),
                r@.len() == i,
                vista_arestas(r@) =~= self@.subrange(0, i as int),
            decreases self.arestas.len() - i,
        {
            let e = self.arestas[i].copia();
            let ghost antes = r@;
            r.push(e);
            assert forall|j: int| 0 <= j < i implies #[trigger] r@[j] == antes[j] by {}
            assert(vista_arestas(r@)[i as int] == self@[i as int]);
            assert(vista_arestas(r@) =~= self@.subrange(0, i + 1));
            i = i + 1;
        }
        assert(self@.subrange(0, self@.len() as int) =~= self@);
        r
    }
}

/// One forecast: point, region, demand.
pub type PrevisaoSpec = (Seq<char>, Seq<char>, i64);

/// The position of the last forecast for point `p`, or -1.
pub open spec fn indice_previsao(t: Seq<PrevisaoSpec>, p: Seq<char>) -> int
    decreases t.len(),
{
    if t.len() == 0 {
        -1
    } else if t.last().0 == p {
        t.len() - 1
    } else {
        indice_previsao(t.drop_last(), p)
    }
}

/// The demand forecast for point `p`, if any.
pub open spec fn demanda_em(t: Seq<PrevisaoSpec>, p: Seq<char>) -> Option<i64> {
    let i = indice_previsao(t, p);
    if i >= 0 {
        Some(t[i].2)
    } else {
        None
    }
}

/// The forecasts with the one for point `p` replaced by `(p, r, d)`, or
/// with `(p, r, d)` appended when `p` had none.
pub open spec fn com_previsao(t: Seq<PrevisaoSpec>, p: Seq<char>, r: Seq<char>, d: i64) -> Seq<
    PrevisaoSpec,
> {
    let i = indice_previsao(t, p);
    if i >= 0 {
        t.update(i, (p, r, d))
    } else {
        t.push((p, r, d))
    }
}

pub proof fn lemma_indice_previsao(t: Seq<PrevisaoSpec>, p: Seq<char>)
    ensures
        -1 <= indice_previsao(t, p) < t.len(),
        indice_previsao(t, p) >= 0 ==> t[indice_previsao(t, p)].0 == p,
        forall|j: int| indice_previsao(t, p) < j < t.len() ==> t[j].0 != p,
    decreases t.len(),
{
    if t.len() > 0 {
        let u = t.drop_last();
        lemma_indice_previsao(u, p);
        assert forall|j: int| 0 <= j < u.len() implies u[j] == t[j] by {}
    }
}

/// Last write wins: after a forecast for `p`, `p` has that demand and every
/// other point keeps its own.
pub proof fn lemma_demanda_com_previsao(
    t: Seq<PrevisaoSpec>,
    p: Seq<char>,
    r: Seq<char>,
    d: i64,
    q: Seq<char>,
)
    ensures
        demanda_em(com_previsao(t, p, r, d), q) == if q == p {
            Some(d)
        } else {
            demanda_em(t, q)
        },
{
    let u = com_previsao(t, p, r, d);
    lemma_indice_previsao(t, p);
    lemma_indice_previsao(t, q);
    lemma_indice_previsao(u, q);
    let i = indice_previsao(t, p);
    let k = indice_previsao(t, q);
    let m = indice_previsao(u, q);
    if q == p {
        if i < 0 {
            assert(u[u.len() - 1].0 == q);
        } else {
            assert(u[i].0 == q);
        }
    } else {
        assert forall|j: int| 0 <= j < t.len() implies u[j].0 == t[j].0 && (j != i ==> u[j]
            == t[j]) by {}
        if k >= 0 {
            assert(u[k].0 == q);
        }
        if m >= 0 {
            assert(m < t.len());
            assert(t[m].0 == q);
        }
    }
}

/// One stored forecast.
pub struct Previsao {
    pub ponto_id: String,
    pub regiao: String,
    /// In thousandths of a unit.
    pub demanda: i64,
}

impl View for Previsao {
    type V = PrevisaoSpec;

    open spec fn view(&self) -> PrevisaoSpec {
        (self.ponto_id@, self.regiao@, self.demanda)
    }
}

/// The last-write-wins demand forecast per point, held in memory only.
pub struct ServicoDemanda {
    previsoes: Vec<Previsao>,
}

impl View for ServicoDemanda {
    type V = Seq<PrevisaoSpec>;

    closed spec fn view(&self) -> Seq<PrevisaoSpec> {
        self.previsoes@.map_values(|e: Previsao| e@)
    }
}

impl ServicoDemanda {
    /// A forecast with no points.
    pub fn new() -> (r: ServicoDemanda)
        ensures
            r@ == Seq::<PrevisaoSpec>::empty(),
    {
        let r = ServicoDemanda { previsoes: Vec::new() };
        assert(r@ =~= Seq::<PrevisaoSpec>::empty());
        r
    }

    fn indice(&self, p: &String) -> (r: Option<usize>)
        ensures
            match r {
                Some(i) => i == indice_previsao(self@, p@),
                None => indice_previsao(self@, p@) == -1,
            },
    {
        let ghost t = self@;
        let mut i: usize = self.previsoes.len();
        assert(t.subrange(0, i as int) =~= t);
        while i > 0
            invariant
                i <= self.previsoes.len(),
                t == self@,
                indice_previsao(t, p@) == indice_previsao(t.subrange(0, i as int), p@),
            decreases i,
        {
            if self.previsoes[i - 1].ponto_id == *p {
                return Some(i - 1);
            }
            proof {
                assert(t.subrange(0, i as int).drop_last() =~= t.subrange(0, i - 1));
            }
            i = i - 1;
        }
        None
    }

    /// Replaces the forecast of the point of `dados` with region and demand
    /// of `dados`; no earlier value is kept.
    pub fn atualizar_previsao(&mut self, dados: DadosPrevisao)
        ensures
            final(self)@ == com_previsao(
                old(self)@,
                dados.ponto_id@,
                dados.regiao@,
                dados.previsao_demanda,
            ),
            forall|q: Seq<char>|
                #[trigger] demanda_em(final(self)@, q) == if q == dados.ponto_id@ {
                    Some(dados.previsao_demanda)
                } else {
                    demanda_em(old(self)@, q)
                },
    {
        let ghost (p, r, d) = (dados.ponto_id@, dados.regiao@, dados.previsao_demanda);
        let i = self.indice(&dados.ponto_id);
        proof {
            lemma_indice_previsao(self@, p);
        }
        let e = Previsao {
            ponto_id: dados.ponto_id,
            regiao: dados.regiao,
            demanda: dados.previsao_demanda,
        };
        match i {
            Some(i) => {
                self.previsoes.set(i, e);
            },
            None => {
                self.previsoes.push(e);
            },
        }
        assert(self@ =~= com_previsao(old(self)@, p, r, d));
        proof {
            assert forall|q: Seq<char>|
                #[trigger] demanda_em(self@, q) == if q == p {
                    Some(d)
                } else {
                    demanda_em(old(self)@, q)
                } by {
                lemma_demanda_com_previsao(old(self)@, p, r, d, q);
            }
        }
    }

    /// The demand forecast for `ponto_id`, if one was given.
    pub fn get_demanda_ponto(&self, ponto_id: &str) -> (r: Option<i64>)
        ensures
            r == demanda_em(self@, ponto_id@),
    {
        let p = ponto_id.to_owned();
        self.demanda(&p)
    }

    pub(crate) fn demanda(&self, p: &String) -> (r: Option<i64>)
        ensures
            r == demanda_em(self@, p@),
    {
        proof {
            lemma_indice_previsao(self@, p@);
        }
        match self.indice(p) {
            Some(i) => Some(self.previsoes[i].demanda),
            None => None,
        }
    }
}

} // verus!
