use phonetics_to_hangul::hangul_builder::{Builder, Consonant, Position, Vowel};

enum Op {
    C(Consonant),
    V(Vowel),
    Space,
    To(Position),
}

fn run(ops: &[Op]) -> String {
    let mut builder = Builder::new();
    for op in ops {
        match op {
            Op::C(consonant) => builder.push_consonant(*consonant),
            Op::V(vowel) => builder.push_vowel(*vowel),
            Op::Space => builder.push_space(),
            Op::To(position) => builder.advance_to(*position),
        }
    }
    builder.finish()
}

#[test]
fn builds_the_samples() {
    assert_eq!(run(&[Op::To(Position::InitialConsonant), Op::V(Vowel::Ye)]), "예");
    assert_eq!(run(&[Op::Space, Op::To(Position::InitialConsonant), Op::V(Vowel::Wa), Op::To(Position::Vowel)]), " 와으");
    assert_eq!(run(&[Op::To(Position::Vowel), Op::V(Vowel::Eu), Op::C(Consonant::Ch), Op::C(Consonant::L), Op::Space, Op::Space, Op::To(Position::InitialConsonant), Op::C(Consonant::H)]), "읓르  흐");
    assert_eq!(run(&[Op::To(Position::Vowel), Op::To(Position::InitialConsonant)]), "으");
    assert_eq!(run(&[Op::To(Position::InitialConsonant), Op::C(Consonant::Ng), Op::To(Position::FinalConsonant), Op::V(Vowel::U), Op::To(Position::SomeConsonant), Op::C(Consonant::M)]), "으움");
    assert_eq!(run(&[Op::C(Consonant::P), Op::C(Consonant::P), Op::Space, Op::V(Vowel::Eu)]), "픞 으");
    assert_eq!(run(&[Op::V(Vowel::Wi)]), "위");
    assert_eq!(run(&[Op::V(Vowel::I), Op::Space]), "이 ");
    assert_eq!(run(&[Op::C(Consonant::J), Op::V(Vowel::O)]), "조");
    assert_eq!(run(&[Op::C(Consonant::Gg), Op::Space]), "끄 ");
    assert_eq!(run(&[Op::V(Vowel::Yu), Op::C(Consonant::S), Op::C(Consonant::Ch)]), "윳츠");
    assert_eq!(run(&[Op::V(Vowel::Wa), Op::V(Vowel::Yo)]), "와요");
    assert_eq!(run(&[Op::C(Consonant::Ng), Op::C(Consonant::S), Op::C(Consonant::G), Op::V(Vowel::E), Op::C(Consonant::Gg), Op::V(Vowel::We), Op::V(Vowel::Ya), Op::V(Vowel::Ya)]), "읏게꿰야야");
    assert_eq!(run(&[Op::C(Consonant::D), Op::Space, Op::To(Position::FinalConsonant), Op::V(Vowel::Yu)]), "드 으유");
    assert_eq!(run(&[Op::V(Vowel::Ye)]), "예");
    assert_eq!(run(&[Op::V(Vowel::Wi), Op::To(Position::InitialConsonant), Op::To(Position::SomeConsonant), Op::C(Consonant::L), Op::Space]), "위을 ");
    assert_eq!(run(&[Op::V(Vowel::Ae), Op::Space, Op::C(Consonant::J), Op::To(Position::FinalConsonant), Op::To(Position::FinalConsonant), Op::C(Consonant::T), Op::C(Consonant::M), Op::V(Vowel::Yae)]), "애 즡먜");
    assert_eq!(run(&[Op::Space, Op::C(Consonant::G), Op::V(Vowel::Eo)]), " 거");
    assert_eq!(run(&[Op::V(Vowel::Wo), Op::Space, Op::Space, Op::Space]), "워   ");
    assert_eq!(run(&[Op::V(Vowel::Yae), Op::C(Consonant::T), Op::Space, Op::C(Consonant::Bb), Op::C(Consonant::Ch), Op::C(Consonant::J)]), "얱 쁯즈");
    assert_eq!(run(&[Op::C(Consonant::M)]), "므");
    assert_eq!(run(&[Op::Space]), " ");
    assert_eq!(run(&[Op::Space, Op::C(Consonant::N)]), " 느");
    assert_eq!(run(&[Op::C(Consonant::H), Op::V(Vowel::Ae), Op::C(Consonant::M), Op::C(Consonant::P), Op::To(Position::InitialConsonant), Op::C(Consonant::Bb)]), "햄프쁘");
    assert_eq!(run(&[Op::Space, Op::V(Vowel::O)]), " 오");
    assert_eq!(run(&[Op::C(Consonant::Dd), Op::Space]), "뜨 ");
    assert_eq!(run(&[Op::C(Consonant::H), Op::V(Vowel::Ya)]), "햐");
    assert_eq!(run(&[Op::To(Position::InitialConsonant), Op::C(Consonant::B), Op::C(Consonant::Ch), Op::To(Position::FinalConsonant), Op::V(Vowel::Yo), Op::C(Consonant::B)]), "브으춉");
    assert_eq!(run(&[Op::V(Vowel::A), Op::To(Position::SomeConsonant)]), "아");
    assert_eq!(run(&[Op::V(Vowel::Ae), Op::V(Vowel::I), Op::V(Vowel::Wa)]), "애이와");
    assert_eq!(run(&[Op::V(Vowel::Wi), Op::C(Consonant::B)]), "윕");
    assert_eq!(run(&[Op::C(Consonant::S), Op::Space, Op::C(Consonant::J), Op::V(Vowel::Ya), Op::C(Consonant::L), Op::V(Vowel::E), Op::C(Consonant::D), Op::V(Vowel::A)]), "스 쟈레다");
    assert_eq!(run(&[Op::C(Consonant::Gg), Op::V(Vowel::Yeo), Op::C(Consonant::H), Op::C(Consonant::S), Op::To(Position::SomeConsonant), Op::C(Consonant::Ch), Op::Space, Op::V(Vowel::Wae)]), "꼏슻 왜");
    assert_eq!(run(&[Op::Space, Op::To(Position::SomeConsonant), Op::C(Consonant::S), Op::V(Vowel::Wi)]), " 으쉬");
    assert_eq!(run(&[Op::C(Consonant::N), Op::V(Vowel::Wa), Op::V(Vowel::Wa), Op::V(Vowel::Wae), Op::C(Consonant::Ng), Op::V(Vowel::We)]), "놔와왜웨");
    assert_eq!(run(&[Op::C(Consonant::Ng), Op::C(Consonant::D), Op::C(Consonant::Ng)]), "읃으");
    assert_eq!(run(&[Op::V(Vowel::O), Op::V(Vowel::U), Op::V(Vowel::E), Op::V(Vowel::Ae), Op::Space, Op::V(Vowel::E), Op::V(Vowel::Ya), Op::C(Consonant::D)]), "오우에애 에얃");
    assert_eq!(run(&[Op::V(Vowel::Eu), Op::C(Consonant::D)]), "읃");
    assert_eq!(run(&[Op::C(Consonant::J)]), "즈");
    assert_eq!(run(&[Op::To(Position::SomeConsonant), Op::C(Consonant::T), Op::V(Vowel::Wo), Op::V(Vowel::Wo), Op::C(Consonant::Bb), Op::V(Vowel::A), Op::C(Consonant::L), Op::To(Position::SomeConsonant)]), "으퉈워빠을");
    assert_eq!(run(&[Op::C(Consonant::Ch), Op::V(Vowel::Ya), Op::Space, Op::C(Consonant::Ng), Op::V(Vowel::A), Op::To(Position::InitialConsonant)]), "챠 아");
    assert_eq!(run(&[Op::V(Vowel::Yo), Op::V(Vowel::Yu), Op::C(Consonant::Ch), Op::V(Vowel::Wae), Op::Space, Op::C(Consonant::P)]), "요유쵀 프");
    assert_eq!(run(&[Op::Space, Op::V(Vowel::O), Op::To(Position::FinalConsonant)]), " 오");
    assert_eq!(run(&[Op::V(Vowel::Yu), Op::V(Vowel::Wo), Op::V(Vowel::Wae), Op::Space]), "유워왜 ");
    assert_eq!(run(&[Op::C(Consonant::Bb), Op::V(Vowel::Yo), Op::C(Consonant::D), Op::To(Position::InitialConsonant)]), "뾷");
    assert_eq!(run(&[Op::V(Vowel::Eo)]), "어");
    assert_eq!(run(&[Op::V(Vowel::Yae), Op::V(Vowel::Ae), Op::C(Consonant::M), Op::C(Consonant::J), Op::C(Consonant::H)]), "얘앰즣");
    assert_eq!(run(&[Op::C(Consonant::B), Op::V(Vowel::Yae), Op::C(Consonant::L), Op::Space]), "뱰 ");
    assert_eq!(run(&[Op::C(Consonant::Dd), Op::To(Position::SomeConsonant), Op::V(Vowel::Wae), Op::V(Vowel::Yu), Op::To(Position::FinalConsonant), Op::V(Vowel::E)]), "뜨왜유에");
    assert_eq!(run(&[Op::V(Vowel::We), Op::Space, Op::C(Consonant::B)]), "웨 브");
    assert_eq!(run(&[Op::C(Consonant::N), Op::C(Consonant::D), Op::C(Consonant::K), Op::V(Vowel::Yu), Op::V(Vowel::Yu)]), "늗큐유");
    assert_eq!(run(&[Op::C(Consonant::H), Op::V(Vowel::A), Op::To(Position::Vowel), Op::V(Vowel::U)]), "하우");
    assert_eq!(run(&[Op::C(Consonant::Bb)]), "쁘");
    assert_eq!(run(&[Op::C(Consonant::S), Op::C(Consonant::S), Op::C(Consonant::M), Op::V(Vowel::Yeo), Op::V(Vowel::Yo), Op::V(Vowel::Ae)]), "슷며요애");
    assert_eq!(run(&[Op::V(Vowel::Wae), Op::V(Vowel::Ae), Op::V(Vowel::Yu), Op::V(Vowel::Wae)]), "왜애유왜");
    assert_eq!(run(&[Op::V(Vowel::Yu), Op::V(Vowel::Eu)]), "유으");
    assert_eq!(run(&[Op::To(Position::SomeConsonant), Op::C(Consonant::Dd), Op::V(Vowel::Ye), Op::C(Consonant::S)]), "으똇");
    assert_eq!(run(&[Op::V(Vowel::Ya), Op::C(Consonant::P), Op::Space, Op::Space, Op::C(Consonant::H)]), "얖  흐");
    assert_eq!(run(&[Op::Space, Op::C(Consonant::Dd)]), " 뜨");
    assert_eq!(run(&[Op::To(Position::SomeConsonant)]), "으");
    assert_eq!(run(&[Op::V(Vowel::U), Op::C(Consonant::M), Op::To(Position::Vowel), Op::V(Vowel::Eo), Op::C(Consonant::G), Op::C(Consonant::Bb), Op::V(Vowel::Wae), Op::C(Consonant::P)]), "우\u{110b}먹뾒");
    assert_eq!(run(&[Op::V(Vowel::We), Op::V(Vowel::E), Op::C(Consonant::L), Op::C(Consonant::H)]), "웨엘흐");
    assert_eq!(run(&[Op::To(Position::Vowel)]), "으");
    assert_eq!(run(&[Op::Space]), " ");
    assert_eq!(run(&[Op::V(Vowel::Wae), Op::C(Consonant::B), Op::C(Consonant::H), Op::To(Position::InitialConsonant), Op::To(Position::SomeConsonant), Op::To(Position::FinalConsonant), Op::V(Vowel::I), Op::To(Position::Vowel)]), "왭흐으이으");
    assert_eq!(run(&[Op::C(Consonant::M), Op::V(Vowel::Ae), Op::V(Vowel::Ae)]), "매애");
    assert_eq!(run(&[Op::V(Vowel::Wo), Op::C(Consonant::S), Op::Space, Op::To(Position::InitialConsonant)]), "웟 ");
    assert_eq!(run(&[Op::C(Consonant::H), Op::C(Consonant::K), Op::V(Vowel::I), Op::C(Consonant::G), Op::C(Consonant::M)]), "흐킥므");
    assert_eq!(run(&[Op::V(Vowel::Eo), Op::Space, Op::C(Consonant::D), Op::C(Consonant::G), Op::To(Position::Vowel), Op::C(Consonant::M), Op::V(Vowel::Wae), Op::V(Vowel::Eo)]), "어 드\u{110b}\u{11a8}뫠어");
    assert_eq!(run(&[Op::To(Position::SomeConsonant), Op::V(Vowel::Ye)]), "으예");
    assert_eq!(run(&[Op::C(Consonant::J), Op::To(Position::SomeConsonant), Op::C(Consonant::M), Op::C(Consonant::Ng), Op::V(Vowel::Yae), Op::C(Consonant::K)]), "즘얰");
    assert_eq!(run(&[Op::C(Consonant::Dd), Op::V(Vowel::Ye), Op::V(Vowel::Yae), Op::V(Vowel::We), Op::V(Vowel::U)]), "뗴얘웨우");
    assert_eq!(run(&[Op::V(Vowel::Yeo), Op::C(Consonant::N)]), "연");
    assert_eq!(run(&[Op::C(Consonant::B), Op::V(Vowel::Yu), Op::V(Vowel::Ye), Op::To(Position::FinalConsonant), Op::V(Vowel::O)]), "뷰예오");
    assert_eq!(run(&[Op::C(Consonant::G), Op::Space, Op::V(Vowel::E), Op::V(Vowel::Yeo), Op::V(Vowel::Wi)]), "그 에여위");
    assert_eq!(run(&[Op::To(Position::Vowel)]), "으");
    assert_eq!(run(&[Op::V(Vowel::Wi), Op::C(Consonant::D)]), "윋");
    assert_eq!(run(&[Op::C(Consonant::Ng), Op::Space]), "으 ");
    assert_eq!(run(&[Op::V(Vowel::O)]), "오");
    assert_eq!(run(&[Op::V(Vowel::Ye), Op::C(Consonant::P)]), "옢");
    assert_eq!(run(&[Op::C(Consonant::Gg), Op::V(Vowel::O), Op::C(Consonant::L), Op::V(Vowel::Wo), Op::C(Consonant::Ng), Op::C(Consonant::N), Op::C(Consonant::L), Op::To(Position::InitialConsonant)]), "꼬뤙늘");
    assert_eq!(run(&[Op::C(Consonant::K), Op::V(Vowel::Yae), Op::C(Consonant::S), Op::C(Consonant::T), Op::V(Vowel::Ya)]), "컛탸");
    assert_eq!(run(&[Op::C(Consonant::M), Op::V(Vowel::Eu), Op::V(Vowel::O)]), "므오");
    assert_eq!(run(&[Op::Space, Op::C(Consonant::Gg), Op::Space, Op::C(Consonant::H), Op::V(Vowel::Yu)]), " 끄 휴");
    assert_eq!(run(&[Op::V(Vowel::Yo), Op::C(Consonant::D), Op::V(Vowel::Ae)]), "요대");
    assert_eq!(run(&[Op::C(Consonant::Ng), Op::To(Position::Vowel), Op::C(Consonant::Ch), Op::V(Vowel::Yo)]), "으쵸");
    assert_eq!(run(&[Op::V(Vowel::Wo), Op::V(Vowel::Yae)]), "워얘");
    assert_eq!(run(&[Op::V(Vowel::O)]), "오");
    assert_eq!(run(&[Op::Space, Op::C(Consonant::J), Op::V(Vowel::Ya), Op::C(Consonant::T), Op::To(Position::SomeConsonant)]), " 쟈읕");
    assert_eq!(run(&[Op::C(Consonant::G), Op::C(Consonant::T), Op::V(Vowel::Wae), Op::V(Vowel::E)]), "그퇘에");
    assert_eq!(run(&[Op::V(Vowel::Wi)]), "위");
    assert_eq!(run(&[Op::C(Consonant::Dd), Op::V(Vowel::Ae), Op::Space, Op::C(Consonant::Dd), Op::V(Vowel::Wi)]), "때 뛰");
    assert_eq!(run(&[Op::V(Vowel::E), Op::C(Consonant::J), Op::V(Vowel::Ye), Op::C(Consonant::L)]), "에졜");
    assert_eq!(run(&[Op::C(Consonant::Gg), Op::C(Consonant::L), Op::Space, Op::V(Vowel::Ae), Op::C(Consonant::M), Op::C(Consonant::P), Op::C(Consonant::T), Op::Space]), "끌 앰픝 ");
    assert_eq!(run(&[Op::C(Consonant::B), Op::V(Vowel::Yae)]), "뱨");
    assert_eq!(run(&[Op::C(Consonant::H)]), "흐");
    assert_eq!(run(&[Op::V(Vowel::Yae), Op::C(Consonant::H)]), "얳");
    assert_eq!(run(&[Op::C(Consonant::Gg), Op::V(Vowel::Ya), Op::C(Consonant::H), Op::C(Consonant::K), Op::C(Consonant::Ng), Op::To(Position::InitialConsonant), Op::V(Vowel::Ya), Op::C(Consonant::H)]), "꺟크얗");
    assert_eq!(run(&[Op::Space, Op::C(Consonant::J)]), " 즈");
    assert_eq!(run(&[Op::C(Consonant::N), Op::To(Position::InitialConsonant), Op::C(Consonant::Ng), Op::To(Position::FinalConsonant)]), "느으");
    assert_eq!(run(&[Op::V(Vowel::Wi), Op::V(Vowel::Ya), Op::V(Vowel::A), Op::V(Vowel::U), Op::C(Consonant::B), Op::To(Position::InitialConsonant), Op::C(Consonant::D), Op::Space]), "위야아웁드 ");
    assert_eq!(run(&[Op::C(Consonant::D), Op::Space, Op::C(Consonant::Ch), Op::C(Consonant::Ng), Op::C(Consonant::G), Op::Space, Op::V(Vowel::Eo), Op::V(Vowel::Wi)]), "드 층그 어위");
    assert_eq!(run(&[Op::To(Position::FinalConsonant), Op::V(Vowel::A), Op::To(Position::FinalConsonant), Op::C(Consonant::N), Op::V(Vowel::O), Op::V(Vowel::We)]), "으안오웨");
    assert_eq!(run(&[Op::Space, Op::V(Vowel::Yu), Op::Space, Op::C(Consonant::K), Op::V(Vowel::Wo), Op::To(Position::InitialConsonant)]), " 유 쿼");
    assert_eq!(run(&[Op::V(Vowel::A), Op::C(Consonant::H), Op::V(Vowel::Yae)]), "아햬");
    assert_eq!(run(&[Op::Space, Op::C(Consonant::J), Op::C(Consonant::B), Op::C(Consonant::P), Op::C(Consonant::M), Op::C(Consonant::Ch)]), " 즙픔츠");
    assert_eq!(run(&[Op::To(Position::InitialConsonant), Op::V(Vowel::We), Op::C(Consonant::T), Op::To(Position::SomeConsonant), Op::V(Vowel::Yo), Op::Space]), "웨으툐 ");
    assert_eq!(run(&[Op::C(Consonant::P), Op::V(Vowel::Wi), Op::C(Consonant::B)]), "퓝");
    assert_eq!(run(&[Op::To(Position::SomeConsonant), Op::V(Vowel::I), Op::Space, Op::V(Vowel::Eo)]), "으이 어");
    assert_eq!(run(&[Op::V(Vowel::U)]), "우");
    assert_eq!(run(&[Op::V(Vowel::U), Op::To(Position::Vowel), Op::C(Consonant::B), Op::Space]), "우읍 ");
    assert_eq!(run(&[Op::C(Consonant::B), Op::C(Consonant::D)]), "븓");
    assert_eq!(run(&[Op::To(Position::FinalConsonant), Op::C(Consonant::Ng), Op::C(Consonant::Ng), Op::V(Vowel::Yeo)]), "응여");
    assert_eq!(run(&[Op::To(Position::FinalConsonant), Op::To(Position::InitialConsonant), Op::Space, Op::C(Consonant::J), Op::To(Position::Vowel)]), "으 즈");
    assert_eq!(run(&[Op::To(Position::InitialConsonant), Op::V(Vowel::Wo), Op::V(Vowel::Wa), Op::To(Position::SomeConsonant), Op::C(Consonant::D), Op::V(Vowel::I), Op::V(Vowel::O), Op::C(Consonant::P)]), "워와디옾");
    assert_eq!(run(&[Op::C(Consonant::Dd), Op::To(Position::InitialConsonant), Op::To(Position::InitialConsonant), Op::V(Vowel::Wae), Op::C(Consonant::H), Op::Space, Op::To(Position::InitialConsonant), Op::C(Consonant::S)]), "뜨왷 스");
    assert_eq!(run(&[Op::Space, Op::C(Consonant::G), Op::To(Position::SomeConsonant), Op::Space]), " 그 ");
    assert_eq!(run(&[Op::V(Vowel::We), Op::V(Vowel::O), Op::C(Consonant::N), Op::V(Vowel::Ye), Op::V(Vowel::Eu), Op::To(Position::SomeConsonant), Op::C(Consonant::M), Op::V(Vowel::Ae)]), "웨오녜으매");
    assert_eq!(run(&[Op::C(Consonant::Bb)]), "쁘");
    assert_eq!(run(&[Op::V(Vowel::Yae), Op::Space]), "얘 ");
    assert_eq!(run(&[Op::Space]), " ");
    assert_eq!(run(&[Op::V(Vowel::O), Op::To(Position::FinalConsonant), Op::C(Consonant::Ng), Op::C(Consonant::G), Op::To(Position::Vowel), Op::V(Vowel::Eo)]), "옹거");
    assert_eq!(run(&[Op::V(Vowel::U)]), "우");
    assert_eq!(run(&[Op::Space, Op::Space, Op::V(Vowel::E), Op::To(Position::InitialConsonant)]), "  에");
    assert_eq!(run(&[Op::V(Vowel::Wae), Op::C(Consonant::P)]), "왶");
    assert_eq!(run(&[Op::Space, Op::C(Consonant::B), Op::V(Vowel::Ya), Op::C(Consonant::M), Op::C(Consonant::N), Op::V(Vowel::Yeo)]), " 뱜녀");
    assert_eq!(run(&[Op::To(Position::InitialConsonant), Op::To(Position::FinalConsonant), Op::Space, Op::C(Consonant::S)]), "으 스");
    assert_eq!(run(&[Op::V(Vowel::A), Op::V(Vowel::Ya), Op::V(Vowel::Ye), Op::C(Consonant::L)]), "아야옐");
    assert_eq!(run(&[Op::C(Consonant::Bb), Op::V(Vowel::We)]), "쀄");
    assert_eq!(run(&[Op::V(Vowel::Eo), Op::V(Vowel::Wi), Op::Space]), "어위 ");
    assert_eq!(run(&[Op::V(Vowel::Wa), Op::C(Consonant::Ng), Op::V(Vowel::Yeo)]), "와여");
    assert_eq!(run(&[Op::To(Position::SomeConsonant), Op::C(Consonant::H), Op::V(Vowel::A), Op::V(Vowel::Yo), Op::C(Consonant::Ng), Op::C(Consonant::Ng), Op::C(Consonant::G), Op::V(Vowel::Ye)]), "으하용으계");
    assert_eq!(run(&[Op::V(Vowel::U)]), "우");
    assert_eq!(run(&[Op::To(Position::FinalConsonant), Op::C(Consonant::D), Op::V(Vowel::Ae), Op::V(Vowel::Wae), Op::C(Consonant::J)]), "읃애왲");
    assert_eq!(run(&[Op::C(Consonant::Bb), Op::V(Vowel::Wo), Op::C(Consonant::M)]), "뿸");
    assert_eq!(run(&[Op::C(Consonant::H), Op::C(Consonant::Ch), Op::V(Vowel::Yae), Op::V(Vowel::A)]), "흐챼아");
    assert_eq!(run(&[Op::V(Vowel::I)]), "이");
    assert_eq!(run(&[Op::To(Position::FinalConsonant), Op::V(Vowel::I)]), "으이");
    assert_eq!(run(&[Op::V(Vowel::E)]), "에");
    assert_eq!(run(&[Op::Space, Op::C(Consonant::M)]), " 므");
    assert_eq!(run(&[Op::To(Position::InitialConsonant), Op::C(Consonant::Ng), Op::C(Consonant::G), Op::C(Consonant::B)]), "윽브");
    assert_eq!(run(&[Op::To(Position::InitialConsonant), Op::To(Position::SomeConsonant), Op::C(Consonant::Ng), Op::C(Consonant::D), Op::V(Vowel::I), Op::Space, Op::C(Consonant::S), Op::C(Consonant::J)]), "응디 슺");
    assert_eq!(run(&[Op::V(Vowel::Yo), Op::C(Consonant::G)]), "욕");
    assert_eq!(run(&[Op::To(Position::SomeConsonant), Op::C(Consonant::J)]), "읒");
    assert_eq!(run(&[Op::V(Vowel::Yae), Op::C(Consonant::T)]), "얱");
    assert_eq!(run(&[Op::C(Consonant::P), Op::C(Consonant::K), Op::V(Vowel::A), Op::C(Consonant::J), Op::C(Consonant::K), Op::C(Consonant::N)]), "프캊큰");
    assert_eq!(run(&[Op::C(Consonant::Ng), Op::C(Consonant::J)]), "읒");
    assert_eq!(run(&[Op::C(Consonant::S), Op::V(Vowel::Yu), Op::V(Vowel::Eo), Op::To(Position::Vowel), Op::V(Vowel::Wae)]), "슈어왜");
    assert_eq!(run(&[Op::C(Consonant::Bb), Op::V(Vowel::Wi), Op::C(Consonant::H), Op::To(Position::FinalConsonant), Op::C(Consonant::L), Op::C(Consonant::J), Op::Space, Op::C(Consonant::M)]), "쀠읗릊 므");
    assert_eq!(run(&[Op::To(Position::InitialConsonant), Op::C(Consonant::L), Op::C(Consonant::K), Op::V(Vowel::Yu)]), "르큐");
    assert_eq!(run(&[Op::C(Consonant::K), Op::C(Consonant::S), Op::C(Consonant::J), Op::C(Consonant::D)]), "큿즏");
    assert_eq!(run(&[Op::To(Position::FinalConsonant), Op::To(Position::Vowel), Op::V(Vowel::Wae)]), "으왜");
    assert_eq!(run(&[Op::C(Consonant::K)]), "크");
    assert_eq!(run(&[Op::V(Vowel::Wa)]), "와");
    assert_eq!(run(&[Op::V(Vowel::Yu), Op::C(Consonant::S)]), "윳");
    assert_eq!(run(&[Op::C(Consonant::T), Op::C(Consonant::H), Op::C(Consonant::K), Op::V(Vowel::Yae)]), "틓컈");
    assert_eq!(run(&[Op::V(Vowel::Wo), Op::Space, Op::To(Position::Vowel), Op::To(Position::Vowel), Op::V(Vowel::Yo), Op::V(Vowel::Ye), Op::To(Position::Vowel), Op::Space]), "워 요예으 ");
    assert_eq!(run(&[Op::C(Consonant::S), Op::Space, Op::V(Vowel::Ya), Op::C(Consonant::P)]), "스 얖");
    assert_eq!(run(&[Op::V(Vowel::Wi), Op::V(Vowel::I), Op::To(Position::Vowel), Op::C(Consonant::G), Op::C(Consonant::K), Op::Space, Op::V(Vowel::U), Op::V(Vowel::Wo)]), "위이윽크 우워");
    assert_eq!(run(&[Op::C(Consonant::Gg), Op::V(Vowel::O), Op::C(Consonant::J), Op::V(Vowel::Ya), Op::V(Vowel::O), Op::To(Position::SomeConsonant)]), "꼬쟈오");
}
