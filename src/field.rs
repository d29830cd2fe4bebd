use vstd::prelude::*;

verus! {

/// `256^n`.
pub open spec fn pow256(n: nat) -> nat
    decreases n,
{
    if n == 0 {
        1
    } else {
        256 * pow256((n - 1) as nat)
    }
}

/// Value of the first `n` bytes of `s`, read little-endian.
pub open spec fn le_val_upto(s: Seq<u8>, n: nat) -> nat
    decreases n,
{
    if n == 0 {
        0
    } else {
        le_val_upto(s, (n - 1) as nat) + (s[n - 1] as nat) * pow256((n - 1) as nat)
    }
}

/// Value of a byte string read little-endian.
pub open spec fn le_val(s: Seq<u8>) -> nat {
    le_val_upto(s, s.len())
}

/// The base-field modulus `p` of BLS12-377.
pub open spec fn modulus() -> nat {
    258664426012969094010652733694893533536393512754914660539884262666720468348340822774968888139573360124440321458177nat
}

/// The sign threshold `(p - 1) / 2`.
pub open spec fn half() -> nat {
    129332213006484547005326366847446766768196756377457330269942131333360234174170411387484444069786680062220160729088nat
}

/// `p` is odd, and `half` is `(p - 1) / 2`.
pub proof fn lemma_half_of_modulus()
    ensures
        modulus() == 2 * half() + 1,
{
}

proof fn lemma_le_val_upto_zero(s: Seq<u8>)
    ensures
        le_val_upto(s, 0) == 0,
        pow256(0) == 1,
{
}

proof fn lemma_le_val_upto_step(s: Seq<u8>, n: nat, v: nat, pw: nat, b: u8)
    requires
        n < s.len(),
        le_val_upto(s, n) == v,
        pow256(n) == pw,
        s[n as int] == b,
    ensures
        le_val_upto(s, n + 1) == v + (b as nat) * pw,
        pow256(n + 1) == 256 * pw,
{
}

fn modulus_bytes() -> (r: Vec<u8>)
    ensures
        r@.len() == 48,
        le_val(r@) == modulus(),
{
    let r = vec![1u8, 0, 0, 0, 0, 192, 8, 133, 0, 0, 0, 48, 68, 93, 11, 23, 0, 72, 9, 186, 47, 98, 243, 30, 143, 19, 245, 0, 243, 217, 34, 26, 59, 73, 161, 108, 192, 5, 59, 198, 234, 16, 197, 23, 70, 58, 174, 1];
    proof {
        lemma_le_val_upto_zero(r@);
        lemma_le_val_upto_step(r@, 0, 0nat, 1nat, 1u8);
        lemma_le_val_upto_step(r@, 1, 1nat, 256nat, 0u8);
        lemma_le_val_upto_step(r@, 2, 1nat, 65536nat, 0u8);
        lemma_le_val_upto_step(r@, 3, 1nat, 16777216nat, 0u8);
        lemma_le_val_upto_step(r@, 4, 1nat, 4294967296nat, 0u8);
        lemma_le_val_upto_step(r@, 5, 1nat, 1099511627776nat, 192u8);
        lemma_le_val_upto_step(r@, 6, 211106232532993nat, 281474976710656nat, 8u8);
        lemma_le_val_upto_step(r@, 7, 2462906046218241nat, 72057594037927936nat, 133u8);
        lemma_le_val_upto_step(r@, 8, 9586122913090633729nat, 18446744073709551616nat, 0u8);
        lemma_le_val_upto_step(r@, 9, 9586122913090633729nat, 4722366482869645213696nat, 0u8);
        lemma_le_val_upto_step(r@, 10, 9586122913090633729nat, 1208925819614629174706176nat, 0u8);
        lemma_le_val_upto_step(r@, 11, 9586122913090633729nat, 309485009821345068724781056nat, 48u8);
        lemma_le_val_upto_step(r@, 12, 14855280481010686211880124417nat, 79228162514264337593543950336nat, 68u8);
        lemma_le_val_upto_step(r@, 13, 5402370331450985642572868747265nat, 20282409603651670423947251286016nat, 93u8);
        lemma_le_val_upto_step(r@, 14, 1891666463471056335069667238346753nat, 5192296858534827628530496329220096nat, 11u8);
        lemma_le_val_upto_step(r@, 15, 59006931907354160248905126859767809nat, 1329227995784915872903807060280344576nat, 23u8);
        lemma_le_val_upto_step(r@, 16, 30631250834960419237036467513307693057nat, 340282366920938463463374607431768211456nat, 0u8);
        lemma_le_val_upto_step(r@, 17, 30631250834960419237036467513307693057nat, 87112285931760246646623899502532662132736nat, 72u8);
        lemma_le_val_upto_step(r@, 18, 6272115218337572718976157800649864981250049nat, 22300745198530623141535718272648361505980416nat, 9u8);
        lemma_le_val_upto_step(r@, 19, 206978822005113180992797622254485118535073793nat, 5708990770823839524233143877797980545530986496nat, 186u8);
        lemma_le_val_upto_step(r@, 20, 1062079262195239264688357558892678866587298562049nat, 1461501637330902918203684832716283019655932542976nat, 47u8);
        lemma_le_val_upto_step(r@, 21, 69752656216747676420261544696557980790416128081921nat, 374144419156711147060143317175368453031918731001856nat, 98u8);
        lemma_le_val_upto_step(r@, 22, 36735905733574440088314306627882666377918451766263809nat, 95780971304118053647396689196894323976171195136475136nat, 243u8);
        lemma_le_val_upto_step(r@, 23, 23311511932634261476405709781473203392587518869929721857nat, 24519928653854221733733552434404946937899825954937634816nat, 30u8);
        lemma_le_val_upto_step(r@, 24, 758909371548260913488412282813621611529582297518058766337nat, 6277101735386680763835789423207666416102355444464034512896nat, 143u8);
        lemma_le_val_upto_step(r@, 25, 898384457531843610142006299801509919114166410855874994110465nat, 1606938044258990275541962092341162602522202993782792835301376nat, 19u8);
        lemma_le_val_upto_step(r@, 26, 31430207298452658845439286054283599367036023292728938864836609nat, 411376139330301510538742295639337626245683966408394965837152256nat, 245u8);
        lemma_le_val_upto_step(r@, 27, 100818584343222322740837301717692002029559607793349495568967139329nat, 105312291668557186697918027683670432318895095400549111254310977536nat, 0u8);
        lemma_le_val_upto_step(r@, 28, 100818584343222322740837301717692002029559607793349495568967139329nat, 26959946667150639794667015087019630673637144422540572481103610249216nat, 243u8);
        lemma_le_val_upto_step(r@, 29, 6551367858701948692426825503447487945695855654285152462403746257698817nat, 6901746346790563787434755862277025452451108972170386555162524223799296nat, 217u8);
        lemma_le_val_upto_step(r@, 30, 1504230325112254290565768847617562011127586502615259034932671502822146049nat, 1766847064778384329583297500742918515827483896875618958121606201292619776nat, 34u8);
        lemma_le_val_upto_step(r@, 31, 61577030527577321496397883872876791549262038996386303611067282346771218433nat, 452312848583266388373324160190187140051835877600158453279131187530910662656nat, 26u8);
        lemma_le_val_upto_step(r@, 32, 11821711093692503419202826048817742432896994856600506088868478158150448447489nat, 115792089237316195423570985008687907853269984665640564039457584007913129639936nat, 59u8);
        lemma_le_val_upto_step(r@, 33, 6843554976095348033409890941561404305775826090129393784416865934625025097203713nat, 29642774844752946028434172162224104410437116074403984394101141506025761187823616nat, 73u8);
        lemma_le_val_upto_step(r@, 34, 2170766118643060408109104458783921026267685299521620254553800195874505591808327681nat, 7588550360256754183279148073529370729071901715047420004889892225542594864082845696nat, 161u8);
        lemma_le_val_upto_step(r@, 35, 1223927374119980483916051944297012608406843861422156241041826448508232278709146484737nat, 1942668892225729070919461906823518906642406839052139521251812409738904285205208498176nat, 108u8);
        lemma_le_val_upto_step(r@, 36, 211032167734498720143217937881237054525786782479053224536237566700309895080871664287745nat, 497323236409786642155382248146820840100456150797347717440463976893159497012533375533056nat, 192u8);
        lemma_le_val_upto_step(r@, 37, 95697093558413534013976609582070838353813367735569814973105321130186933321487279766634497nat, 127314748520905380391777855525586135065716774604121015664758778084648831235208544136462336nat, 5u8);
        lemma_le_val_upto_step(r@, 38, 732270836162940435972865887210001513682397240756174893296899211553431089497530000448946177nat, 32592575621351777380295131014550050576823494298654980010178247189670100796213387298934358016nat, 59u8);
        lemma_le_val_upto_step(r@, 39, 1923694232495917805873385595745662985546268560861399995493813483402089378066087380637576069121nat, 8343699359066055009355553539724812947666814540455674882605631280555545803830627148527195652096nat, 198u8);
        lemma_le_val_upto_step(r@, 40, 1653976167327574809658272986461258626623575547571085026751408807033400158536530262789022315184129nat, 2135987035920910082395021706169552114602704522356652769947041607822219725780640550022962086936576nat, 234u8);
        lemma_le_val_upto_step(r@, 41, 501474942572820534090093352230136453443656433779027833194359145037432815991206418968162150658342913nat, 546812681195752981093125556779405341338292357723303109106442651602488249799843980805878294255763456nat, 16u8);
        lemma_le_val_upto_step(r@, 42, 9250477841704868231580102260700621914856334157351877578897441570677244812788710111862214858750558209nat, 139984046386112763159840142535527767382602843577165595931249318810236991948760059086304843329475444736nat, 197u8);
        lemma_le_val_upto_step(r@, 43, 27586107615905919210720088181759670796287616518858974276035013247187364658718520350113916350765413171201nat, 35835915874844867368919076489095108449946327955754392558399825615420669938882575126094039892345713852416nat, 23u8);
        lemma_le_val_upto_step(r@, 44, 851812172737337868695858847430947165145053159501210003119231002401862773253017748250276833874716831776769nat, 9173994463960286046443283581208347763186259956673124494950355357547691504353939232280074212440502746218496nat, 70u8);
        lemma_le_val_upto_step(r@, 45, 643031424649957361119725709532015290588183250126619924649644106030740268078028764007855471704709909067071489nat, 2348542582773833227889480596789337027375682548908319870707290971532209025114608443463698998384768703031934976nat, 58u8);
        lemma_le_val_upto_step(r@, 46, 136858501225532284578709600323313562878377771086809172425672520454898863724725318484902397378021294684919300097nat, 601226901190101306339707032778070279008174732520529886901066488712245510429339761526706943586500787976175353856nat, 174u8);
        lemma_le_val_upto_step(r@, 47, 104750339308303159587687733303707542110300781229659009493211241556385617678429843824131910581429158402539430871041nat, 153914086704665934422965000391185991426092731525255651046673021110334850669910978950836977558144201721900890587136nat, 1u8);
    }
    r
}

fn half_bytes() -> (r: Vec<u8>)
    ensures
        r@.len() == 48,
        le_val(r@) == half(),
{
    let r = vec![0u8, 0, 0, 0, 0, 96, 132, 66, 0, 0, 0, 24, 162, 174, 133, 11, 0, 164, 4, 221, 23, 177, 121, 143, 199, 137, 122, 128, 249, 108, 17, 141, 157, 164, 80, 54, 224, 130, 29, 99, 117, 136, 226, 11, 35, 29, 215, 0];
    proof {
        lemma_le_val_upto_zero(r@);
        lemma_le_val_upto_step(r@, 0, 0nat, 1nat, 0u8);
        lemma_le_val_upto_step(r@, 1, 0nat, 256nat, 0u8);
        lemma_le_val_upto_step(r@, 2, 0nat, 65536nat, 0u8);
        lemma_le_val_upto_step(r@, 3, 0nat, 16777216nat, 0u8);
        lemma_le_val_upto_step(r@, 4, 0nat, 4294967296nat, 0u8);
        lemma_le_val_upto_step(r@, 5, 0nat, 1099511627776nat, 96u8);
        lemma_le_val_upto_step(r@, 6, 105553116266496nat, 281474976710656nat, 132u8);
        lemma_le_val_upto_step(r@, 7, 37260250042073088nat, 72057594037927936nat, 66u8);
        lemma_le_val_upto_step(r@, 8, 4793061456545316864nat, 18446744073709551616nat, 0u8);
        lemma_le_val_upto_step(r@, 9, 4793061456545316864nat, 4722366482869645213696nat, 0u8);
        lemma_le_val_upto_step(r@, 10, 4793061456545316864nat, 1208925819614629174706176nat, 0u8);
        lemma_le_val_upto_step(r@, 11, 4793061456545316864nat, 309485009821345068724781056nat, 24u8);
        lemma_le_val_upto_step(r@, 12, 7427640240505343105940062208nat, 79228162514264337593543950336nat, 162u8);
        lemma_le_val_upto_step(r@, 13, 12842389967551328033260060016640nat, 20282409603651670423947251286016nat, 174u8);
        lemma_le_val_upto_step(r@, 14, 3541981661002941981800081783783424nat, 5192296858534827628530496329220096nat, 133u8);
        lemma_le_val_upto_step(r@, 15, 694117463846135016576356093570056192nat, 1329227995784915872903807060280344576nat, 11u8);
        lemma_le_val_upto_step(r@, 16, 15315625417480209618518233756653846528nat, 340282366920938463463374607431768211456nat, 0u8);
        lemma_le_val_upto_step(r@, 17, 15315625417480209618518233756653846528nat, 87112285931760246646623899502532662132736nat, 164u8);
        lemma_le_val_upto_step(r@, 18, 14286430208434097930255938036649113243615232nat, 22300745198530623141535718272648361505980416nat, 4u8);
        lemma_le_val_upto_step(r@, 19, 103489411002556590496398811127242559267536896nat, 5708990770823839524233143877797980545530986496nat, 221u8);
        lemma_le_val_upto_step(r@, 20, 1261790449763071091446021195804480943121615552512nat, 1461501637330902918203684832716283019655932542976nat, 23u8);
        lemma_le_val_upto_step(r@, 21, 34876328108373838210130772348278990395208064040960nat, 374144419156711147060143317175368453031918731001856nat, 177u8);
        lemma_le_val_upto_step(r@, 22, 66258438518846246867855497912388495177044823451369472nat, 95780971304118053647396689196894323976171195136475136nat, 121u8);
        lemma_le_val_upto_step(r@, 23, 11655755966317130738202854890736601696293759434964860928nat, 24519928653854221733733552434404946937899825954937634816nat, 143u8);
        lemma_le_val_upto_step(r@, 24, 3518005553467470838662100853010644013815968870991046639616nat, 6277101735386680763835789423207666416102355444464034512896nat, 199u8);
        lemma_le_val_upto_step(r@, 25, 1252661250895416942841984196071336260818184702319333914705920nat, 1606938044258990275541962092341162602522202993782792835301376nat, 137u8);
        lemma_le_val_upto_step(r@, 26, 221403173314377084692090790846810612806359994850561952350994432nat, 411376139330301510538742295639337626245683966408394965837152256nat, 122u8);
        lemma_le_val_upto_step(r@, 27, 50409292171611161370418650858846001014779803896674747784483569664nat, 105312291668557186697918027683670432318895095400549111254310977536nat, 128u8);
        lemma_le_val_upto_step(r@, 28, 13530382625746931058703926194368661337833352015166960988336288694272nat, 26959946667150639794667015087019630673637144422540572481103610249216nat, 249u8);
        lemma_le_val_upto_step(r@, 29, 6726557102746256239930790682862256699073482313227769508783135240749056nat, 6901746346790563787434755862277025452451108972170386555162524223799296nat, 108u8);
        lemma_le_val_upto_step(r@, 30, 752115162556127145282884423808781005563793251307629517466335751411073024nat, 1766847064778384329583297500742918515827483896875618958121606201292619776nat, 17u8);
        lemma_le_val_upto_step(r@, 31, 30788515263788660748198941936438395774631019498193151805533641173385609216nat, 452312848583266388373324160190187140051835877600158453279131187530910662656nat, 141u8);
        lemma_le_val_upto_step(r@, 32, 63806900165504349421386905528752825143083489761120535064163031083031789043712nat, 115792089237316195423570985008687907853269984665640564039457584007913129639936nat, 157u8);
        lemma_le_val_upto_step(r@, 33, 18243164910424147030922031551892754358106471082266689089259003720325393142513664nat, 29642774844752946028434172162224104410437116074403984394101141506025761187823616nat, 164u8);
        lemma_le_val_upto_step(r@, 34, 4879658239449907295694126266156645877669793507284520129721846210708550227945586688nat, 7588550360256754183279148073529370729071901715047420004889892225542594864082845696nat, 80u8);
        lemma_le_val_upto_step(r@, 35, 611963687059990241958025972148506304203421930711078120520913224254116139354573242368nat, 1942668892225729070919461906823518906642406839052139521251812409738904285205208498176nat, 54u8);
        lemma_le_val_upto_step(r@, 36, 105516083867249360071608968940618527262893391239526612268118783350154947540435832143872nat, 497323236409786642155382248146820840100456150797347717440463976893159497012533375533056nat, 224u8);
        lemma_le_val_upto_step(r@, 37, 111505921039659457202877232553828486709765071169845415318932049607417882278347911951548416nat, 127314748520905380391777855525586135065716774604121015664758778084648831235208544136462336nat, 130u8);
        lemma_le_val_upto_step(r@, 38, 16662423228757358908133998450880026045252945769705577451737573200611765942855458649691652096nat, 32592575621351777380295131014550050576823494298654980010178247189670100796213387298934358016nat, 29u8);
        lemma_le_val_upto_step(r@, 39, 961847116247958902936692797872831492773134280430699997746906741701044689033043690318788034560nat, 8343699359066055009355553539724812947666814540455674882605631280555545803830627148527195652096nat, 99u8);
        lemma_le_val_upto_step(r@, 40, 826988083663787404829136493230629313311787773785542513375704403516700079268265131394511157592064nat, 2135987035920910082395021706169552114602704522356652769947041607822219725780640550022962086936576nat, 117u8);
        lemma_le_val_upto_step(r@, 41, 250737471286410267045046676115068226721828216889513916597179572518716407995603209484081075329171456nat, 546812681195752981093125556779405341338292357723303109106442651602488249799843980805878294255763456nat, 136u8);
        lemma_le_val_upto_step(r@, 42, 74617262113908815695710122398114194648729588867258736755073380190457118380774384599083529094113001472nat, 139984046386112763159840142535527767382602843577165595931249318810236991948760059086304843329475444736nat, 226u8);
        lemma_le_val_upto_step(r@, 43, 31711011745375393289819582335427389623116972237306683417217419431304017298800547738103978121555563511808nat, 35835915874844867368919076489095108449946327955754392558399825615420669938882575126094039892345713852416nat, 11u8);
        lemma_le_val_upto_step(r@, 44, 425906086368668934347929423715473582572526579750605001559615501200931386626508874125138416937358415888384nat, 9173994463960286046443283581208347763186259956673124494950355357547691504353939232280074212440502746218496nat, 35u8);
        lemma_le_val_upto_step(r@, 45, 321515712324978680559862854766007645294091625063309962324822053015370134039014382003927735852354954533535744nat, 2348542582773833227889480596789337027375682548908319870707290971532209025114608443463698998384768703031934976nat, 29u8);
        lemma_le_val_upto_step(r@, 46, 68429250612766142289354800161656781439188885543404586212836260227449431862362659242451198689010647342459650048nat, 601226901190101306339707032778070279008174732520529886901066488712245510429339761526706943586500787976175353856nat, 215u8);
        lemma_le_val_upto_step(r@, 47, 129332213006484547005326366847446766768196756377457330269942131333360234174170411387484444069786680062220160729088nat, 153914086704665934422965000391185991426092731525255651046673021110334850669910978950836977558144201721900890587136nat, 0u8);
    }
    r
}

/// Number of bytes of a serialized base-field element.
pub const FQ_BYTES: usize = 48;

/// `-v` in the base field, for `v < p`.
pub open spec fn neg_val(v: nat) -> nat {
    if v == 0 {
        0
    } else {
        (modulus() - v) as nat
    }
}

proof fn lemma_le_val_upto_frame(s1: Seq<u8>, s2: Seq<u8>, n: nat)
    requires
        n <= s1.len(),
        n <= s2.len(),
        forall|j: int| 0 <= j < n ==> s1[j] == s2[j],
    ensures
        le_val_upto(s1, n) == le_val_upto(s2, n),
    decreases n,
{
    if n > 0 {
        lemma_le_val_upto_frame(s1, s2, (n - 1) as nat);
    }
}

proof fn lemma_le_val_upto_bound(s: Seq<u8>, n: nat)
    requires
        n <= s.len(),
    ensures
        le_val_upto(s, n) < pow256(n),
    decreases n,
{
    if n > 0 {
        let m = (n - 1) as nat;
        lemma_le_val_upto_bound(s, m);
        let b = s[m as int] as nat;
        let pw = pow256(m);
        assert(b * pw <= 255 * pw) by (nonlinear_arith)
            requires
                b <= 255,
        ;
    }
}

proof fn lemma_sub_step(d: int, bi: int, ai: int, ob: int, nb: int, pw: int)
    requires
        d + bi + ob == ai + 256 * nb,
    ensures
        d * pw + bi * pw + ob * pw == ai * pw + nb * (256 * pw),
{
    assert(d * pw + bi * pw + ob * pw == ai * pw + nb * (256 * pw)) by (nonlinear_arith)
        requires
            d + bi + ob == ai + 256 * nb,
    ;
}

/// Byte-wise subtraction with borrow: `a - b`, wrapping modulo `256^n`.
fn sub_bytes(a: &Vec<u8>, b: &Vec<u8>) -> (r: (Vec<u8>, bool))
    requires
        a@.len() == b@.len(),
    ensures
        r.0@.len() == a@.len(),
        le_val(r.0@) + le_val(b@) == le_val(a@) + (if r.1 {
            pow256(a@.len())
        } else {
            0
        }),
{
    let n = a.len();
    let mut r: Vec<u8> = Vec::new();
    let mut borrow: bool = false;
    let mut i: usize = 0;
    while i < n
        invariant
            n == a@.len(),
            n == b@.len(),
            i <= n,
            r@.len() == i,
            le_val_upto(r@, i as nat) + le_val_upto(b@, i as nat) == le_val_upto(a@, i as nat) + (
            if borrow {
                pow256(i as nat)
            } else {
                0
            }),
        decreases n - i,
    {
        let ai: u16 = a[i] as u16;
        let sub: u16 = b[i] as u16 + if borrow {
            1u16
        } else {
            0u16
        };
        let d: u8;
        let nb: bool;
        if ai >= sub {
            d = (ai - sub) as u8;
            nb = false;
        } else {
            d = (ai + 256 - sub) as u8;
            nb = true;
        }
        proof {
            let pw = pow256(i as nat);
            lemma_le_val_upto_frame(r@, r@.push(d), i as nat);
            lemma_sub_step(
                d as int,
                b@[i as int] as int,
                a@[i as int] as int,
                if borrow { 1int } else { 0int },
                if nb { 1int } else { 0int },
                pw as int,
            );
            assert(r@.push(d)[i as int] == d);
        }
        r.push(d);
        borrow = nb;
        i = i + 1;
    }
    (r, borrow)
}

/// `le_val(a) < le_val(b)` for two byte strings of one length.
fn lt_bytes(a: &Vec<u8>, b: &Vec<u8>) -> (r: bool)
    requires
        a@.len() == b@.len(),
    ensures
        r == (le_val(a@) < le_val(b@)),
{
    let (d, borrow) = sub_bytes(a, b);
    proof {
        lemma_le_val_upto_bound(d@, d@.len());
        lemma_le_val_upto_bound(a@, a@.len());
        lemma_le_val_upto_bound(b@, b@.len());
    }
    borrow
}

/// An element of the base field of BLS12-377, held as its canonical
/// little-endian encoding.
#[derive(Debug)]
pub struct Fq {
    pub bytes: Vec<u8>,
}

impl Fq {
    /// The integer in `[0, p)` that the element stands for.
    pub open spec fn value(&self) -> nat {
        le_val(self.bytes@)
    }

    /// The encoding has the fixed width and is reduced modulo `p`.
    pub open spec fn wf(&self) -> bool {
        self.bytes@.len() == FQ_BYTES && self.value() < modulus()
    }

    fn zero_bytes() -> (r: Vec<u8>)
        ensures
            r@.len() == FQ_BYTES,
            le_val(r@) == 0,
    {
        let mut r: Vec<u8> = Vec::new();
        let mut i: usize = 0;
        while i < FQ_BYTES
            invariant
                i <= FQ_BYTES,
                r@.len() == i,
                le_val_upto(r@, i as nat) == 0,
            decreases FQ_BYTES - i,
        {
            proof {
                lemma_le_val_upto_frame(r@, r@.push(0u8), i as nat);
                assert(r@.push(0u8)[i as int] == 0u8);
            }
            r.push(0u8);
            i = i + 1;
        }
        r
    }

    /// The additive identity.
    pub fn zero() -> (r: Fq)
        ensures
            r.wf(),
            r.value() == 0,
    {
        Fq { bytes: Self::zero_bytes() }
    }

    /// The constant `(p - 1) / 2` that separates the two roots of a square.
    pub fn half() -> (r: Fq)
        ensures
            r.wf(),
            r.value() == half(),
    {
        Fq { bytes: half_bytes() }
    }

    /// Reads a canonical little-endian encoding; `None` unless it has
    /// `FQ_BYTES` bytes and stands for a value below `p`.
    pub fn from_le_bytes(b: &Vec<u8>) -> (r: Option<Fq>)
        ensures
            r is Some <==> (b@.len() == FQ_BYTES && le_val(b@) < modulus()),
            r is Some ==> r->0.wf() && r->0.bytes@ == b@,
    {
        if b.len() != FQ_BYTES {
            return None;
        }
        let m = modulus_bytes();
        if lt_bytes(b, &m) {
            Some(Fq { bytes: b.clone() })
        } else {
            None
        }
    }

    /// The canonical little-endian encoding.
    pub fn to_le_bytes(&self) -> (r: Vec<u8>)
        ensures
            r@ == self.bytes@,
    {
        self.bytes.clone()
    }

    /// Whether the element is `0`.
    pub fn is_zero(&self) -> (r: bool)
        requires
            self.wf(),
        ensures
            r == (self.value() == 0),
    {
        let z = Self::zero_bytes();
        !lt_bytes(&z, &self.bytes)
    }

    /// Whether the element lies above `(p - 1) / 2`.
    pub fn is_over_half(&self) -> (r: bool)
        requires
            self.wf(),
        ensures
            r == (self.value() > half()),
    {
        let h = half_bytes();
        lt_bytes(&h, &self.bytes)
    }

    /// Order of the canonical representatives.
    pub fn le(&self, other: &Fq) -> (r: bool)
        requires
            self.wf(),
            other.wf(),
        ensures
            r == (self.value() <= other.value()),
    {
        !lt_bytes(&other.bytes, &self.bytes)
    }

    /// Equality of elements.
    pub fn eq(&self, other: &Fq) -> (r: bool)
        requires
            self.wf(),
            other.wf(),
        ensures
            r == (self.value() == other.value()),
    {
        !lt_bytes(&other.bytes, &self.bytes) && !lt_bytes(&self.bytes, &other.bytes)
    }

    /// The additive inverse `-self`.
    pub fn neg(&self) -> (r: Fq)
        requires
            self.wf(),
        ensures
            r.wf(),
            r.value() == neg_val(self.value()),
    {
        if self.is_zero() {
            Self::zero()
        } else {
            let m = modulus_bytes();
            let (d, _borrow) = sub_bytes(&m, &self.bytes);
            proof {
                lemma_le_val_upto_bound(d@, d@.len());
            }
            Fq { bytes: d }
        }
    }

    /// `self - (p - 1) / 2`, for an element above that threshold.
    pub fn sub_half(&self) -> (r: Fq)
        requires
            self.wf(),
            self.value() > half(),
        ensures
            r.wf(),
            r.value() == self.value() - half(),
    {
        let h = half_bytes();
        let (d, _borrow) = sub_bytes(&self.bytes, &h);
        proof {
            lemma_le_val_upto_bound(d@, d@.len());
            lemma_le_val_upto_bound(self.bytes@, self.bytes@.len());
        }
        Fq { bytes: d }
    }
}

proof fn lemma_pow256_step(n: nat, pw: nat)
    requires
        pow256(n) == pw,
    ensures
        pow256(n + 1) == 256 * pw,
{
}

/// `256^47`, the weight of the last byte of an encoded element.
proof fn lemma_pow256_47()
    ensures
        pow256(47) == 153914086704665934422965000391185991426092731525255651046673021110334850669910978950836977558144201721900890587136nat,
{
    assert(pow256(0) == 1);
    lemma_pow256_step(0, 1nat);
    lemma_pow256_step(1, 256nat);
    lemma_pow256_step(2, 65536nat);
    lemma_pow256_step(3, 16777216nat);
    lemma_pow256_step(4, 4294967296nat);
    lemma_pow256_step(5, 1099511627776nat);
    lemma_pow256_step(6, 281474976710656nat);
    lemma_pow256_step(7, 72057594037927936nat);
    lemma_pow256_step(8, 18446744073709551616nat);
    lemma_pow256_step(9, 4722366482869645213696nat);
    lemma_pow256_step(10, 1208925819614629174706176nat);
    lemma_pow256_step(11, 309485009821345068724781056nat);
    lemma_pow256_step(12, 79228162514264337593543950336nat);
    lemma_pow256_step(13, 20282409603651670423947251286016nat);
    lemma_pow256_step(14, 5192296858534827628530496329220096nat);
    lemma_pow256_step(15, 1329227995784915872903807060280344576nat);
    lemma_pow256_step(16, 340282366920938463463374607431768211456nat);
    lemma_pow256_step(17, 87112285931760246646623899502532662132736nat);
    lemma_pow256_step(18, 22300745198530623141535718272648361505980416nat);
    lemma_pow256_step(19, 5708990770823839524233143877797980545530986496nat);
    lemma_pow256_step(20, 1461501637330902918203684832716283019655932542976nat);
    lemma_pow256_step(21, 374144419156711147060143317175368453031918731001856nat);
    lemma_pow256_step(22, 95780971304118053647396689196894323976171195136475136nat);
    lemma_pow256_step(23, 24519928653854221733733552434404946937899825954937634816nat);
    lemma_pow256_step(24, 6277101735386680763835789423207666416102355444464034512896nat);
    lemma_pow256_step(25, 1606938044258990275541962092341162602522202993782792835301376nat);
    lemma_pow256_step(26, 411376139330301510538742295639337626245683966408394965837152256nat);
    lemma_pow256_step(27, 105312291668557186697918027683670432318895095400549111254310977536nat);
    lemma_pow256_step(28, 26959946667150639794667015087019630673637144422540572481103610249216nat);
    lemma_pow256_step(29, 6901746346790563787434755862277025452451108972170386555162524223799296nat);
    lemma_pow256_step(30, 1766847064778384329583297500742918515827483896875618958121606201292619776nat);
    lemma_pow256_step(31, 452312848583266388373324160190187140051835877600158453279131187530910662656nat);
    lemma_pow256_step(32, 115792089237316195423570985008687907853269984665640564039457584007913129639936nat);
    lemma_pow256_step(33, 29642774844752946028434172162224104410437116074403984394101141506025761187823616nat);
    lemma_pow256_step(34, 7588550360256754183279148073529370729071901715047420004889892225542594864082845696nat);
    lemma_pow256_step(35, 1942668892225729070919461906823518906642406839052139521251812409738904285205208498176nat);
    lemma_pow256_step(36, 497323236409786642155382248146820840100456150797347717440463976893159497012533375533056nat);
    lemma_pow256_step(37, 127314748520905380391777855525586135065716774604121015664758778084648831235208544136462336nat);
    lemma_pow256_step(38, 32592575621351777380295131014550050576823494298654980010178247189670100796213387298934358016nat);
    lemma_pow256_step(39, 8343699359066055009355553539724812947666814540455674882605631280555545803830627148527195652096nat);
    lemma_pow256_step(40, 2135987035920910082395021706169552114602704522356652769947041607822219725780640550022962086936576nat);
    lemma_pow256_step(41, 546812681195752981093125556779405341338292357723303109106442651602488249799843980805878294255763456nat);
    lemma_pow256_step(42, 139984046386112763159840142535527767382602843577165595931249318810236991948760059086304843329475444736nat);
    lemma_pow256_step(43, 35835915874844867368919076489095108449946327955754392558399825615420669938882575126094039892345713852416nat);
    lemma_pow256_step(44, 9173994463960286046443283581208347763186259956673124494950355357547691504353939232280074212440502746218496nat);
    lemma_pow256_step(45, 2348542582773833227889480596789337027375682548908319870707290971532209025114608443463698998384768703031934976nat);
    lemma_pow256_step(46, 601226901190101306339707032778070279008174732520529886901066488712245510429339761526706943586500787976175353856nat);
}

/// The last byte of a reduced element leaves its high bit clear, since
/// `p < 2^377`.
pub proof fn lemma_last_byte_small(x: &Fq)
    requires
        x.wf(),
    ensures
        x.bytes@[FQ_BYTES - 1] < 128,
{
    let s = x.bytes@;
    lemma_pow256_47();
    let b = s[47] as nat;
    let pw = pow256(47);
    assert(le_val(s) == le_val_upto(s, 47) + b * pw);
    if b >= 128 {
        assert(b * pw >= 128 * pw) by (nonlinear_arith)
            requires
                b >= 128,
        ;
    }
}

} // verus!
